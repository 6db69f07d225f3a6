//! The format's cross-cutting guarantees, stated once over the
//! specification functions that the codec's contracts use.

use vstd::prelude::*;
use crate::value::{SpecValue, value_bytes, wf_value};
use crate::de::spec_decode_value;
use crate::se::spec_stream_bytes;
use crate::data_ids::NULL_ID;
use crate::{Compression, Error};

verus! {

/// Decoding inverts encoding: for every well-formed value, the canonical
/// bytes decode back to exactly that value, consuming them all.  Together
/// with the contracts of [`crate::se::to_bytes`] and
/// [`crate::de::from_slice`], this is the round trip for whole streams
/// under every compression setting.
pub proof fn lemma_value_round_trip(v: SpecValue)
    requires
        wf_value(v),
    ensures
        spec_decode_value(value_bytes(v)) == Ok::<(SpecValue, Seq<u8>), Error>(
            (v, Seq::<u8>::empty()),
        ),
{
    assert(value_bytes(v) + Seq::<u8>::empty() =~= value_bytes(v));
    crate::de::lemma_decode_value_round_trip(v, Seq::<u8>::empty());
}

/// Absence and unit collapse to one wire form: the null tag alone.  The
/// encoders for `None`, the unit value and a zero-field unit struct all
/// promise exactly these bytes.
pub proof fn lemma_option_unit_collapse()
    ensures
        value_bytes(SpecValue::Null) == seq![NULL_ID],
{
}

/// The header byte that names a compression setting's algorithm.
pub open spec fn spec_compression_kind(c: Compression) -> u8 {
    match c {
        Compression::Plain => 0,
        Compression::Deflate(_v) => 1,
        Compression::Gzip(_v) => 2,
        Compression::Zlib(_v) => 3,
    }
}

/// Compression opacity, byte side: for one value, settings with different
/// algorithms produce different streams, because the header announces the
/// algorithm.  That all of them decode back to the same value is the
/// round-trip contract of [`crate::de::from_slice`], which holds for
/// every setting alike.
pub proof fn lemma_compression_opacity(v: SpecValue, c1: Compression, c2: Compression)
    requires
        spec_compression_kind(c1) != spec_compression_kind(c2),
    ensures
        spec_stream_bytes(v, c1) != spec_stream_bytes(v, c2),
{
    let s1 = spec_stream_bytes(v, c1);
    let s2 = spec_stream_bytes(v, c2);
    assert(s1[7] == spec_compression_kind(c1));
    assert(s2[7] == spec_compression_kind(c2));
}

} // verus!
