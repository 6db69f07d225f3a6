//! Decoding: a total specification of tag-directed decoding, the
//! [`Deserializer`] that implements it over a lookahead cursor, and the
//! shape-directed step protocol (sequence, map and enum access) used by a
//! binding layer.

use vstd::prelude::*;
use vstd::utf8::*;
use crate::data_ids::{
    NULL_ID, BOOL_ID, I8_ID, I16_ID, I32_ID, I64_ID, U8_ID, U16_ID, U32_ID, U64_ID, F32_ID,
    F64_ID, CHAR_ID, STR_ID, BYTES_ID, SEQ_ID, TUPLE_ID, UNIT_VARIANT_ID, NEWTYPE_VARIANT_ID,
    TUPLE_VARIANT_ID, STRUCT_VARIANT_ID, TUPLE_STRUCT_ID, MAP_ID,
};
use crate::value::{
    Value, SpecValue, value_bytes, list_bytes, pairs_bytes, view_list, view_pairs,
    lemma_view_list_len, lemma_view_list_index, lemma_view_pairs_len, lemma_view_pairs_index,
};
use crate::wire::{
    spec_u16_from_be, spec_u32_from_be, spec_u64_from_be,
};
use crate::{Compression, Error, ExpectedId};

verus! {

broadcast use lemma_view_list_len, lemma_view_list_index, lemma_view_pairs_len,
    lemma_view_pairs_index;

/// The byte width of the UTF-8 encoding that starts with this byte,
/// judged from its leading bits alone; bytes that lead no multi-byte
/// encoding count as width one and fail validation later.
pub open spec fn spec_char_width(b: u8) -> int {
    if is_leading_byte_width_2(b) {
        2
    } else if is_leading_byte_width_3(b) {
        3
    } else if is_leading_byte_width_4(b) {
        4
    } else {
        1
    }
}

/// Tag-directed decoding of one value from the front of `s`: the value
/// and the remaining suffix, or the exact error.  This is the whole
/// decode relation; the executable decoder is proved to agree with it.
pub open spec fn spec_decode_value(s: Seq<u8>) -> Result<(SpecValue, Seq<u8>), Error>
    decreases s.len(), 0int,
{
    if s.len() < 1 {
        Err(Error::UnexpectedEof)
    } else {
        let tag = s[0];
        let t = s.subrange(1, s.len() as int);
        if tag == NULL_ID {
            Ok((SpecValue::Null, t))
        } else if tag == BOOL_ID {
            if t.len() < 1 {
                Err(Error::UnexpectedEof)
            } else {
                Ok((SpecValue::Bool(t[0] != 0), t.subrange(1, t.len() as int)))
            }
        } else if tag == I8_ID {
            if t.len() < 1 {
                Err(Error::UnexpectedEof)
            } else {
                Ok((SpecValue::I8(t[0] as i8), t.subrange(1, t.len() as int)))
            }
        } else if tag == I16_ID {
            if t.len() < 2 {
                Err(Error::UnexpectedEof)
            } else {
                Ok(
                    (
                        SpecValue::I16(spec_u16_from_be(t[0], t[1]) as i16),
                        t.subrange(2, t.len() as int),
                    ),
                )
            }
        } else if tag == I32_ID {
            if t.len() < 4 {
                Err(Error::UnexpectedEof)
            } else {
                Ok(
                    (
                        SpecValue::I32(spec_u32_from_be(t[0], t[1], t[2], t[3]) as i32),
                        t.subrange(4, t.len() as int),
                    ),
                )
            }
        } else if tag == I64_ID {
            if t.len() < 8 {
                Err(Error::UnexpectedEof)
            } else {
                Ok(
                    (
                        SpecValue::I64(
                            spec_u64_from_be(
                                t[0],
                                t[1],
                                t[2],
                                t[3],
                                t[4],
                                t[5],
                                t[6],
                                t[7],
                            ) as i64,
                        ),
                        t.subrange(8, t.len() as int),
                    ),
                )
            }
        } else if tag == U8_ID {
            if t.len() < 1 {
                Err(Error::UnexpectedEof)
            } else {
                Ok((SpecValue::U8(t[0]), t.subrange(1, t.len() as int)))
            }
        } else if tag == U16_ID {
            if t.len() < 2 {
                Err(Error::UnexpectedEof)
            } else {
                Ok(
                    (
                        SpecValue::U16(spec_u16_from_be(t[0], t[1])),
                        t.subrange(2, t.len() as int),
                    ),
                )
            }
        } else if tag == U32_ID {
            if t.len() < 4 {
                Err(Error::UnexpectedEof)
            } else {
                Ok(
                    (
                        SpecValue::U32(spec_u32_from_be(t[0], t[1], t[2], t[3])),
                        t.subrange(4, t.len() as int),
                    ),
                )
            }
        } else if tag == U64_ID {
            if t.len() < 8 {
                Err(Error::UnexpectedEof)
            } else {
                Ok(
                    (
                        SpecValue::U64(spec_u64_from_be(t[0], t[1], t[2], t[3], t[4], t[5], t[6], t[7])),
                        t.subrange(8, t.len() as int),
                    ),
                )
            }
        } else if tag == F32_ID {
            if t.len() < 4 {
                Err(Error::UnexpectedEof)
            } else {
                Ok(
                    (
                        SpecValue::F32Bits(spec_u32_from_be(t[0], t[1], t[2], t[3])),
                        t.subrange(4, t.len() as int),
                    ),
                )
            }
        } else if tag == F64_ID {
            if t.len() < 8 {
                Err(Error::UnexpectedEof)
            } else {
                Ok(
                    (
                        SpecValue::F64Bits(
                            spec_u64_from_be(t[0], t[1], t[2], t[3], t[4], t[5], t[6], t[7]),
                        ),
                        t.subrange(8, t.len() as int),
                    ),
                )
            }
        } else if tag == CHAR_ID {
            if t.len() < 1 {
                Err(Error::UnexpectedEof)
            } else {
                let w = spec_char_width(t[0]);
                if t.len() < w {
                    Err(Error::UnexpectedEof)
                } else {
                    let cb = t.subrange(0, w);
                    if valid_first_scalar(cb) {
                        Ok(
                            (
                                SpecValue::Char(decode_first_scalar(cb) as char),
                                t.subrange(w, t.len() as int),
                            ),
                        )
                    } else {
                        Err(Error::FromUtf8Error)
                    }
                }
            }
        } else if tag == STR_ID {
            if t.len() < 4 {
                Err(Error::UnexpectedEof)
            } else {
                let n = spec_u32_from_be(t[0], t[1], t[2], t[3]) as int;
                if t.len() < 4 + n {
                    Err(Error::UnexpectedEof)
                } else {
                    let b = t.subrange(4, 4 + n);
                    if valid_utf8(b) {
                        Ok((SpecValue::Str(b), t.subrange(4 + n, t.len() as int)))
                    } else {
                        Err(Error::FromUtf8Error)
                    }
                }
            }
        } else if tag == BYTES_ID {
            if t.len() < 4 {
                Err(Error::UnexpectedEof)
            } else {
                let n = spec_u32_from_be(t[0], t[1], t[2], t[3]) as int;
                if t.len() < 4 + n {
                    Err(Error::UnexpectedEof)
                } else {
                    Ok(
                        (
                            SpecValue::Bytes(t.subrange(4, 4 + n)),
                            t.subrange(4 + n, t.len() as int),
                        ),
                    )
                }
            }
        } else if tag == SEQ_ID || tag == TUPLE_ID || tag == TUPLE_STRUCT_ID {
            if t.len() < 4 {
                Err(Error::UnexpectedEof)
            } else {
                let n = spec_u32_from_be(t[0], t[1], t[2], t[3]) as nat;
                match spec_decode_list(t.subrange(4, t.len() as int), n) {
                    Err(e) => Err(e),
                    Ok((elems, rest)) => {
                        let v = if tag == SEQ_ID {
                            SpecValue::Sequence(elems)
                        } else if tag == TUPLE_ID {
                            SpecValue::Tuple(elems)
                        } else {
                            SpecValue::TupleStruct(elems)
                        };
                        Ok((v, rest))
                    },
                }
            }
        } else if tag == MAP_ID {
            if t.len() < 4 {
                Err(Error::UnexpectedEof)
            } else {
                let n = spec_u32_from_be(t[0], t[1], t[2], t[3]) as nat;
                match spec_decode_pairs(t.subrange(4, t.len() as int), n) {
                    Err(e) => Err(e),
                    Ok((pairs, rest)) => Ok((SpecValue::Mapping(pairs), rest)),
                }
            }
        } else if tag == UNIT_VARIANT_ID {
            if t.len() < 4 {
                Err(Error::UnexpectedEof)
            } else {
                Ok(
                    (
                        SpecValue::UnitVariant(spec_u32_from_be(t[0], t[1], t[2], t[3])),
                        t.subrange(4, t.len() as int),
                    ),
                )
            }
        } else if tag == NEWTYPE_VARIANT_ID {
            if t.len() < 4 {
                Err(Error::UnexpectedEof)
            } else {
                let i = spec_u32_from_be(t[0], t[1], t[2], t[3]);
                match spec_decode_value(t.subrange(4, t.len() as int)) {
                    Err(e) => Err(e),
                    Ok((inner, rest)) => Ok(
                        (SpecValue::NewtypeVariant(i, Box::new(inner)), rest),
                    ),
                }
            }
        } else if tag == TUPLE_VARIANT_ID {
            if t.len() < 8 {
                Err(Error::UnexpectedEof)
            } else {
                let i = spec_u32_from_be(t[0], t[1], t[2], t[3]);
                let n = spec_u32_from_be(t[4], t[5], t[6], t[7]) as nat;
                match spec_decode_list(t.subrange(8, t.len() as int), n) {
                    Err(e) => Err(e),
                    Ok((elems, rest)) => Ok((SpecValue::TupleVariant(i, elems), rest)),
                }
            }
        } else if tag == STRUCT_VARIANT_ID {
            if t.len() < 8 {
                Err(Error::UnexpectedEof)
            } else {
                let i = spec_u32_from_be(t[0], t[1], t[2], t[3]);
                let n = spec_u32_from_be(t[4], t[5], t[6], t[7]) as nat;
                match spec_decode_pairs(t.subrange(8, t.len() as int), n) {
                    Err(e) => Err(e),
                    Ok((pairs, rest)) => Ok((SpecValue::StructVariant(i, pairs), rest)),
                }
            }
        } else {
            Err(Error::InvalidDataId { expected: ExpectedId::AnyValue, found: tag })
        }
    }
}

/// Decodes `n` consecutive values.  The inner bound keeps the recursion
/// well-founded; decoding a value always consumes at least its tag byte,
/// so the bound never fires on any actual decode.
pub open spec fn spec_decode_list(s: Seq<u8>, n: nat) -> Result<(Seq<SpecValue>, Seq<u8>), Error>
    decreases s.len(), n + 1,
{
    if n == 0 {
        Ok((Seq::empty(), s))
    } else {
        match spec_decode_value(s) {
            Err(e) => Err(e),
            Ok((v, rest)) => {
                if rest.len() < s.len() {
                    match spec_decode_list(rest, (n - 1) as nat) {
                        Err(e) => Err(e),
                        Ok((vs, rest2)) => Ok((seq![v] + vs, rest2)),
                    }
                } else {
                    Err(Error::UnexpectedEof)
                }
            },
        }
    }
}

/// Decodes `n` consecutive key/value pairs.
pub open spec fn spec_decode_pairs(s: Seq<u8>, n: nat) -> Result<
    (Seq<(SpecValue, SpecValue)>, Seq<u8>),
    Error,
>
    decreases s.len(), n + 1,
{
    if n == 0 {
        Ok((Seq::empty(), s))
    } else {
        match spec_decode_value(s) {
            Err(e) => Err(e),
            Ok((k, rest1)) => {
                if rest1.len() < s.len() {
                    match spec_decode_value(rest1) {
                        Err(e) => Err(e),
                        Ok((v, rest2)) => {
                            if rest2.len() < rest1.len() {
                                match spec_decode_pairs(rest2, (n - 1) as nat) {
                                    Err(e) => Err(e),
                                    Ok((ps, rest3)) => Ok((seq![(k, v)] + ps, rest3)),
                                }
                            } else {
                                Err(Error::UnexpectedEof)
                            }
                        },
                    }
                } else {
                    Err(Error::UnexpectedEof)
                }
            },
        }
    }
}


proof fn lemma_rt_null(extra: Seq<u8>)
    ensures
        spec_decode_value(value_bytes(SpecValue::Null) + extra) == Ok::<
            (SpecValue, Seq<u8>),
            Error,
        >((SpecValue::Null, extra)),
{
    let s = value_bytes(SpecValue::Null) + extra;
    assert(s.subrange(1, s.len() as int) =~= extra);
}

proof fn lemma_rt_bool(b: bool, extra: Seq<u8>)
    ensures
        spec_decode_value(value_bytes(SpecValue::Bool(b)) + extra) == Ok::<
            (SpecValue, Seq<u8>),
            Error,
        >((SpecValue::Bool(b), extra)),
{
    let s = value_bytes(SpecValue::Bool(b)) + extra;
    let t = s.subrange(1, s.len() as int);
    assert(t =~= seq![if b { 1u8 } else { 0u8 }] + extra);
    assert(t.subrange(1, t.len() as int) =~= extra);
}

proof fn lemma_rt_i8(x: i8, extra: Seq<u8>)
    ensures
        spec_decode_value(value_bytes(SpecValue::I8(x)) + extra) == Ok::<
            (SpecValue, Seq<u8>),
            Error,
        >((SpecValue::I8(x), extra)),
{
    let s = value_bytes(SpecValue::I8(x)) + extra;
    let t = s.subrange(1, s.len() as int);
    assert(t =~= seq![x as u8] + extra);
    assert((x as u8) as i8 == x) by (bit_vector);
    assert(t.subrange(1, t.len() as int) =~= extra);
}

proof fn lemma_rt_i16(x: i16, extra: Seq<u8>)
    ensures
        spec_decode_value(value_bytes(SpecValue::I16(x)) + extra) == Ok::<
            (SpecValue, Seq<u8>),
            Error,
        >((SpecValue::I16(x), extra)),
{
    let s = value_bytes(SpecValue::I16(x)) + extra;
    let t = s.subrange(1, s.len() as int);
    assert(t =~= crate::wire::spec_be16(x as u16) + extra);
    crate::wire::lemma_be16_round_trip(x as u16);
    assert((x as u16) as i16 == x) by (bit_vector);
    assert(t.subrange(2, t.len() as int) =~= extra);
}

proof fn lemma_rt_i32(x: i32, extra: Seq<u8>)
    ensures
        spec_decode_value(value_bytes(SpecValue::I32(x)) + extra) == Ok::<
            (SpecValue, Seq<u8>),
            Error,
        >((SpecValue::I32(x), extra)),
{
    let s = value_bytes(SpecValue::I32(x)) + extra;
    let t = s.subrange(1, s.len() as int);
    assert(t =~= crate::wire::spec_be32(x as u32) + extra);
    crate::wire::lemma_be32_round_trip(x as u32);
    assert((x as u32) as i32 == x) by (bit_vector);
    assert(t.subrange(4, t.len() as int) =~= extra);
}

proof fn lemma_rt_i64(x: i64, extra: Seq<u8>)
    ensures
        spec_decode_value(value_bytes(SpecValue::I64(x)) + extra) == Ok::<
            (SpecValue, Seq<u8>),
            Error,
        >((SpecValue::I64(x), extra)),
{
    let s = value_bytes(SpecValue::I64(x)) + extra;
    let t = s.subrange(1, s.len() as int);
    assert(t =~= crate::wire::spec_be64(x as u64) + extra);
    crate::wire::lemma_be64_round_trip(x as u64);
    assert((x as u64) as i64 == x) by (bit_vector);
    assert(t.subrange(8, t.len() as int) =~= extra);
}

proof fn lemma_rt_u8(x: u8, extra: Seq<u8>)
    ensures
        spec_decode_value(value_bytes(SpecValue::U8(x)) + extra) == Ok::<
            (SpecValue, Seq<u8>),
            Error,
        >((SpecValue::U8(x), extra)),
{
    let s = value_bytes(SpecValue::U8(x)) + extra;
    let t = s.subrange(1, s.len() as int);
    assert(t =~= seq![x] + extra);
    assert(t.subrange(1, t.len() as int) =~= extra);
}

proof fn lemma_rt_u16(x: u16, extra: Seq<u8>)
    ensures
        spec_decode_value(value_bytes(SpecValue::U16(x)) + extra) == Ok::<
            (SpecValue, Seq<u8>),
            Error,
        >((SpecValue::U16(x), extra)),
{
    let s = value_bytes(SpecValue::U16(x)) + extra;
    let t = s.subrange(1, s.len() as int);
    assert(t =~= crate::wire::spec_be16(x) + extra);
    crate::wire::lemma_be16_round_trip(x);
    assert(t.subrange(2, t.len() as int) =~= extra);
}

proof fn lemma_rt_u32(x: u32, extra: Seq<u8>)
    ensures
        spec_decode_value(value_bytes(SpecValue::U32(x)) + extra) == Ok::<
            (SpecValue, Seq<u8>),
            Error,
        >((SpecValue::U32(x), extra)),
{
    let s = value_bytes(SpecValue::U32(x)) + extra;
    let t = s.subrange(1, s.len() as int);
    assert(t =~= crate::wire::spec_be32(x) + extra);
    crate::wire::lemma_be32_round_trip(x);
    assert(t.subrange(4, t.len() as int) =~= extra);
}

proof fn lemma_rt_u64(x: u64, extra: Seq<u8>)
    ensures
        spec_decode_value(value_bytes(SpecValue::U64(x)) + extra) == Ok::<
            (SpecValue, Seq<u8>),
            Error,
        >((SpecValue::U64(x), extra)),
{
    let s = value_bytes(SpecValue::U64(x)) + extra;
    let t = s.subrange(1, s.len() as int);
    assert(t =~= crate::wire::spec_be64(x) + extra);
    crate::wire::lemma_be64_round_trip(x);
    assert(t.subrange(8, t.len() as int) =~= extra);
}

proof fn lemma_rt_f32(x: u32, extra: Seq<u8>)
    ensures
        spec_decode_value(value_bytes(SpecValue::F32Bits(x)) + extra) == Ok::<
            (SpecValue, Seq<u8>),
            Error,
        >((SpecValue::F32Bits(x), extra)),
{
    let s = value_bytes(SpecValue::F32Bits(x)) + extra;
    let t = s.subrange(1, s.len() as int);
    assert(t =~= crate::wire::spec_be32(x) + extra);
    crate::wire::lemma_be32_round_trip(x);
    assert(t.subrange(4, t.len() as int) =~= extra);
}

proof fn lemma_rt_f64(x: u64, extra: Seq<u8>)
    ensures
        spec_decode_value(value_bytes(SpecValue::F64Bits(x)) + extra) == Ok::<
            (SpecValue, Seq<u8>),
            Error,
        >((SpecValue::F64Bits(x), extra)),
{
    let s = value_bytes(SpecValue::F64Bits(x)) + extra;
    let t = s.subrange(1, s.len() as int);
    assert(t =~= crate::wire::spec_be64(x) + extra);
    crate::wire::lemma_be64_round_trip(x);
    assert(t.subrange(8, t.len() as int) =~= extra);
}

proof fn lemma_rt_char(c: char, extra: Seq<u8>)
    ensures
        spec_decode_value(value_bytes(SpecValue::Char(c)) + extra) == Ok::<
            (SpecValue, Seq<u8>),
            Error,
        >((SpecValue::Char(c), extra)),
{
    let s = value_bytes(SpecValue::Char(c)) + extra;
    let t = s.subrange(1, s.len() as int);
    let e = encode_scalar(c as u32);
    let e2 = encode_utf8(seq![c]);
    assert(seq![c].drop_first() =~= Seq::<char>::empty());
    assert(encode_utf8(Seq::<char>::empty()) =~= Seq::<u8>::empty());
    assert(e2 =~= e);
    encode_utf8_first_scalar(seq![c]);
    char_is_scalar(c);
    assert(t =~= e + extra);
    assert(t[0] == e2[0]);
    let w = spec_char_width(t[0]);
    assert(valid_first_scalar(e2));
    assert(length_of_first_scalar(e2) == e.len());
    assert(w == e.len());
    let cb = t.subrange(0, w);
    assert(cb =~= e2);
    assert(decode_first_scalar(cb) == c as u32);
    char_u32_cast(c, c as u32);
    assert(t.subrange(w, t.len() as int) =~= extra);
}

proof fn lemma_rt_str(b: Seq<u8>, extra: Seq<u8>)
    requires
        b.len() <= u32::MAX,
        valid_utf8(b),
    ensures
        spec_decode_value(value_bytes(SpecValue::Str(b)) + extra) == Ok::<
            (SpecValue, Seq<u8>),
            Error,
        >((SpecValue::Str(b), extra)),
{
    let s = value_bytes(SpecValue::Str(b)) + extra;
    let t = s.subrange(1, s.len() as int);
    assert(t =~= crate::wire::spec_be32(b.len() as u32) + b + extra);
    crate::wire::lemma_be32_round_trip(b.len() as u32);
    let n = spec_u32_from_be(t[0], t[1], t[2], t[3]) as int;
    assert(n == b.len());
    assert(t.subrange(4, 4 + n) =~= b);
    assert(t.subrange(4 + n, t.len() as int) =~= extra);
}

proof fn lemma_rt_bytes(b: Seq<u8>, extra: Seq<u8>)
    requires
        b.len() <= u32::MAX,
    ensures
        spec_decode_value(value_bytes(SpecValue::Bytes(b)) + extra) == Ok::<
            (SpecValue, Seq<u8>),
            Error,
        >((SpecValue::Bytes(b), extra)),
{
    let s = value_bytes(SpecValue::Bytes(b)) + extra;
    let t = s.subrange(1, s.len() as int);
    assert(t =~= crate::wire::spec_be32(b.len() as u32) + b + extra);
    crate::wire::lemma_be32_round_trip(b.len() as u32);
    let n = spec_u32_from_be(t[0], t[1], t[2], t[3]) as int;
    assert(n == b.len());
    assert(t.subrange(4, 4 + n) =~= b);
    assert(t.subrange(4 + n, t.len() as int) =~= extra);
}

proof fn lemma_rt_unit_variant(i: u32, extra: Seq<u8>)
    ensures
        spec_decode_value(value_bytes(SpecValue::UnitVariant(i)) + extra) == Ok::<
            (SpecValue, Seq<u8>),
            Error,
        >((SpecValue::UnitVariant(i), extra)),
{
    let s = value_bytes(SpecValue::UnitVariant(i)) + extra;
    let t = s.subrange(1, s.len() as int);
    assert(t =~= crate::wire::spec_be32(i) + extra);
    crate::wire::lemma_be32_round_trip(i);
    assert(t.subrange(4, t.len() as int) =~= extra);
}

/// Decoding inverts encoding: a well-formed value's canonical bytes, in
/// front of anything, decode back to exactly that value with the trailing
/// bytes untouched.
#[verifier::rlimit(100)]
#[verifier::spinoff_prover]
pub proof fn lemma_decode_value_round_trip(v: SpecValue, extra: Seq<u8>)
    requires
        crate::value::wf_value(v),
    ensures
        spec_decode_value(value_bytes(v) + extra) == Ok::<(SpecValue, Seq<u8>), Error>((v, extra)),
    decreases v,
{
    let s = value_bytes(v) + extra;
    let t = s.subrange(1, s.len() as int);
    match v {
        SpecValue::Null => {
            lemma_rt_null(extra);
        },
        SpecValue::Bool(b) => {
            lemma_rt_bool(b, extra);
        },
        SpecValue::I8(x) => {
            lemma_rt_i8(x, extra);
        },
        SpecValue::I16(x) => {
            lemma_rt_i16(x, extra);
        },
        SpecValue::I32(x) => {
            lemma_rt_i32(x, extra);
        },
        SpecValue::I64(x) => {
            lemma_rt_i64(x, extra);
        },
        SpecValue::U8(x) => {
            lemma_rt_u8(x, extra);
        },
        SpecValue::U16(x) => {
            lemma_rt_u16(x, extra);
        },
        SpecValue::U32(x) => {
            lemma_rt_u32(x, extra);
        },
        SpecValue::U64(x) => {
            lemma_rt_u64(x, extra);
        },
        SpecValue::F32Bits(x) => {
            lemma_rt_f32(x, extra);
        },
        SpecValue::F64Bits(x) => {
            lemma_rt_f64(x, extra);
        },
        SpecValue::Char(c) => {
            lemma_rt_char(c, extra);
        },
        SpecValue::Str(b) => {
            lemma_rt_str(b, extra);
        },
        SpecValue::Bytes(b) => {
            lemma_rt_bytes(b, extra);
        },
        SpecValue::UnitVariant(i) => {
            lemma_rt_unit_variant(i, extra);
        },
        SpecValue::Sequence(elems) => {
            assert(t =~= crate::wire::spec_be32(elems.len() as u32) + list_bytes(elems) + extra);
            crate::wire::lemma_be32_round_trip(elems.len() as u32);
            let n = spec_u32_from_be(t[0], t[1], t[2], t[3]) as nat;
            assert(n == elems.len());
            assert(t.subrange(4, t.len() as int) =~= list_bytes(elems) + extra);
            lemma_decode_list_round_trip(elems, extra);
        },
        SpecValue::Tuple(elems) => {
            assert(t =~= crate::wire::spec_be32(elems.len() as u32) + list_bytes(elems) + extra);
            crate::wire::lemma_be32_round_trip(elems.len() as u32);
            let n = spec_u32_from_be(t[0], t[1], t[2], t[3]) as nat;
            assert(n == elems.len());
            assert(t.subrange(4, t.len() as int) =~= list_bytes(elems) + extra);
            lemma_decode_list_round_trip(elems, extra);
        },
        SpecValue::TupleStruct(elems) => {
            assert(t =~= crate::wire::spec_be32(elems.len() as u32) + list_bytes(elems) + extra);
            crate::wire::lemma_be32_round_trip(elems.len() as u32);
            let n = spec_u32_from_be(t[0], t[1], t[2], t[3]) as nat;
            assert(n == elems.len());
            assert(t.subrange(4, t.len() as int) =~= list_bytes(elems) + extra);
            lemma_decode_list_round_trip(elems, extra);
        },
        SpecValue::Mapping(pairs) => {
            assert(t =~= crate::wire::spec_be32(pairs.len() as u32) + pairs_bytes(pairs) + extra);
            crate::wire::lemma_be32_round_trip(pairs.len() as u32);
            let n = spec_u32_from_be(t[0], t[1], t[2], t[3]) as nat;
            assert(n == pairs.len());
            assert(t.subrange(4, t.len() as int) =~= pairs_bytes(pairs) + extra);
            lemma_decode_pairs_round_trip(pairs, extra);
        },
        SpecValue::NewtypeVariant(i, inner) => {
            assert(t =~= crate::wire::spec_be32(i) + value_bytes(*inner) + extra);
            crate::wire::lemma_be32_round_trip(i);
            assert(t.subrange(4, t.len() as int) =~= value_bytes(*inner) + extra);
            lemma_decode_value_round_trip(*inner, extra);
        },
        SpecValue::TupleVariant(i, elems) => {
            assert(t =~= crate::wire::spec_be32(i) + crate::wire::spec_be32(elems.len() as u32)
                + list_bytes(elems) + extra);
            crate::wire::lemma_be32_round_trip(i);
            crate::wire::lemma_be32_round_trip(elems.len() as u32);
            assert(t.subrange(8, t.len() as int) =~= list_bytes(elems) + extra);
            lemma_decode_list_round_trip(elems, extra);
        },
        SpecValue::StructVariant(i, pairs) => {
            assert(t =~= crate::wire::spec_be32(i) + crate::wire::spec_be32(pairs.len() as u32)
                + pairs_bytes(pairs) + extra);
            crate::wire::lemma_be32_round_trip(i);
            crate::wire::lemma_be32_round_trip(pairs.len() as u32);
            assert(t.subrange(8, t.len() as int) =~= pairs_bytes(pairs) + extra);
            lemma_decode_pairs_round_trip(pairs, extra);
        },
    }
}

/// Decoding inverts encoding for a list of elements.
#[verifier::rlimit(100)]
#[verifier::spinoff_prover]
pub proof fn lemma_decode_list_round_trip(l: Seq<SpecValue>, extra: Seq<u8>)
    requires
        crate::value::wf_list(l),
    ensures
        spec_decode_list(list_bytes(l) + extra, l.len()) == Ok::<
            (Seq<SpecValue>, Seq<u8>),
            Error,
        >((l, extra)),
    decreases l,
{
    let s = list_bytes(l) + extra;
    if l.len() == 0 {
        assert(s =~= extra);
        assert(l =~= Seq::<SpecValue>::empty());
    } else {
        let rest0 = list_bytes(l.drop_first()) + extra;
        assert(s =~= value_bytes(l[0]) + rest0);
        lemma_decode_value_round_trip(l[0], rest0);
        crate::value::lemma_value_bytes_nonempty(l[0]);
        assert(rest0.len() < s.len());
        lemma_decode_list_round_trip(l.drop_first(), extra);
        assert(seq![l[0]] + l.drop_first() =~= l);
    }
}

/// Decoding inverts encoding for a list of key/value pairs.
#[verifier::rlimit(100)]
#[verifier::spinoff_prover]
pub proof fn lemma_decode_pairs_round_trip(l: Seq<(SpecValue, SpecValue)>, extra: Seq<u8>)
    requires
        crate::value::wf_pairs(l),
    ensures
        spec_decode_pairs(pairs_bytes(l) + extra, l.len()) == Ok::<
            (Seq<(SpecValue, SpecValue)>, Seq<u8>),
            Error,
        >((l, extra)),
    decreases l,
{
    let s = pairs_bytes(l) + extra;
    if l.len() == 0 {
        assert(s =~= extra);
        assert(l =~= Seq::<(SpecValue, SpecValue)>::empty());
    } else {
        let rest1 = value_bytes(l[0].1) + pairs_bytes(l.drop_first()) + extra;
        assert(s =~= value_bytes(l[0].0) + rest1);
        lemma_decode_value_round_trip(l[0].0, rest1);
        crate::value::lemma_value_bytes_nonempty(l[0].0);
        assert(rest1.len() < s.len());
        let rest2 = pairs_bytes(l.drop_first()) + extra;
        assert(rest1 =~= value_bytes(l[0].1) + rest2);
        lemma_decode_value_round_trip(l[0].1, rest2);
        crate::value::lemma_value_bytes_nonempty(l[0].1);
        assert(rest2.len() < rest1.len());
        lemma_decode_pairs_round_trip(l.drop_first(), extra);
        assert(seq![(l[0].0, l[0].1)] + l.drop_first() =~= l);
        assert(seq![l[0]] + l.drop_first() =~= l);
    }
}

/// The model of a [`Deserializer`]: the decompressed body bytes and the
/// cursor position within them.
pub ghost struct DeserializerView {
    pub body: Seq<u8>,
    pub pos: int,
}

/// Visitor-driven reader for one stream: construction reads and validates
/// the header and decompresses the body; thereafter the caller asks for
/// one expected shape at a time, or for "any", and tags are peeked to
/// validate or dispatch.  The lookahead is the cursor itself: peeking
/// reads at the position without advancing it.
pub struct Deserializer {
    body: Vec<u8>,
    pos: usize,
}

impl View for Deserializer {
    type V = DeserializerView;

    closed spec fn view(&self) -> DeserializerView {
        DeserializerView { body: self.body@, pos: self.pos as int }
    }
}

impl Deserializer {
    /// The cursor sits inside the body.
    pub open spec fn wf(self) -> bool {
        0 <= self@.pos <= self@.body.len()
    }

    /// The bytes not yet consumed.
    pub open spec fn rest(self) -> Seq<u8> {
        self@.body.subrange(self@.pos, self@.body.len() as int)
    }

    /// Consumes one byte.
    fn take_u8(&mut self) -> (r: Result<u8, Error>)
        requires
            old(self).wf(),
        ensures
            final(self).wf(),
            final(self)@.body == old(self)@.body,
            old(self).rest().len() >= 1 ==> (r matches Ok(b) && b == old(self).rest()[0] && final(self)@.pos == old(self)@.pos + 1),
            old(self).rest().len() == 0 ==> (r matches Err(e) && e is UnexpectedEof && final(self)@.pos == old(self)@.pos),
    {
        if self.pos >= self.body.len() {
            return Err(Error::UnexpectedEof);
        }
        let b = self.body[self.pos];
        self.pos = self.pos + 1;
        Ok(b)
    }

    /// Reads the byte at the cursor without consuming it.
    fn peek_u8(&self) -> (r: Result<u8, Error>)
        requires
            self.wf(),
        ensures
            self.rest().len() >= 1 ==> (r matches Ok(b) && b == self.rest()[0]),
            self.rest().len() == 0 ==> (r matches Err(e) && e is UnexpectedEof),
    {
        if self.pos >= self.body.len() {
            return Err(Error::UnexpectedEof);
        }
        Ok(self.body[self.pos])
    }

    /// Consumes a big-endian `u32`.
    fn take_u32(&mut self) -> (r: Result<u32, Error>)
        requires
            old(self).wf(),
        ensures
            final(self).wf(),
            final(self)@.body == old(self)@.body,
            old(self).rest().len() >= 4 ==> (r matches Ok(x) && x == spec_u32_from_be(
                old(self).rest()[0],
                old(self).rest()[1],
                old(self).rest()[2],
                old(self).rest()[3],
            ) && final(self)@.pos == old(self)@.pos + 4),
            old(self).rest().len() < 4 ==> (r matches Err(e) && e is UnexpectedEof && final(self)@.pos == old(self)@.pos),
    {
        if self.body.len() - self.pos < 4 {
            return Err(Error::UnexpectedEof);
        }
        let x = crate::wire::read_u32_be(&self.body, self.pos);
        self.pos = self.pos + 4;
        Ok(x)
    }

    /// Consumes a big-endian `u64`.
    fn take_u64(&mut self) -> (r: Result<u64, Error>)
        requires
            old(self).wf(),
        ensures
            final(self).wf(),
            final(self)@.body == old(self)@.body,
            old(self).rest().len() >= 8 ==> (r matches Ok(x) && x == spec_u64_from_be(
                old(self).rest()[0],
                old(self).rest()[1],
                old(self).rest()[2],
                old(self).rest()[3],
                old(self).rest()[4],
                old(self).rest()[5],
                old(self).rest()[6],
                old(self).rest()[7],
            ) && final(self)@.pos == old(self)@.pos + 8),
            old(self).rest().len() < 8 ==> (r matches Err(e) && e is UnexpectedEof && final(self)@.pos == old(self)@.pos),
    {
        if self.body.len() - self.pos < 8 {
            return Err(Error::UnexpectedEof);
        }
        let x = crate::wire::read_u64_be(&self.body, self.pos);
        self.pos = self.pos + 8;
        Ok(x)
    }

    /// Consumes a big-endian `u16`.
    fn take_u16(&mut self) -> (r: Result<u16, Error>)
        requires
            old(self).wf(),
        ensures
            final(self).wf(),
            final(self)@.body == old(self)@.body,
            old(self).rest().len() >= 2 ==> (r matches Ok(x) && x == spec_u16_from_be(
                old(self).rest()[0],
                old(self).rest()[1],
            ) && final(self)@.pos == old(self)@.pos + 2),
            old(self).rest().len() < 2 ==> (r matches Err(e) && e is UnexpectedEof && final(self)@.pos == old(self)@.pos),
    {
        if self.body.len() - self.pos < 2 {
            return Err(Error::UnexpectedEof);
        }
        let x = crate::wire::read_u16_be(&self.body, self.pos);
        self.pos = self.pos + 2;
        Ok(x)
    }

    /// Consumes `n` bytes, handing them back as a fresh vector.
    fn take_exact(&mut self, n: usize) -> (r: Result<Vec<u8>, Error>)
        requires
            old(self).wf(),
        ensures
            final(self).wf(),
            final(self)@.body == old(self)@.body,
            old(self).rest().len() >= n ==> (r matches Ok(b) && b@ == old(self).rest().subrange(
                0,
                n as int,
            ) && final(self)@.pos == old(self)@.pos + n),
            old(self).rest().len() < n ==> (r matches Err(e) && e is UnexpectedEof && final(self)@.pos == old(self)@.pos),
    {
        if self.body.len() - self.pos < n {
            return Err(Error::UnexpectedEof);
        }
        let b = crate::wire::copy_range(&self.body, self.pos, self.pos + n);
        assert(b@ =~= old(self).rest().subrange(0, n as int));
        self.pos = self.pos + n;
        Ok(b)
    }
}

impl Deserializer {
    /// Binds a decoder to a complete stream: the header read validates
    /// the magic and version, and the whole payload is decompressed up
    /// front by the decompressor the header names.
    pub fn new(bytes: &Vec<u8>) -> (r: Result<Deserializer, Error>)
        ensures
            crate::spec_parse_header(bytes@) matches Err(i) ==> (r matches Err(e)
                && crate::header_error_for(i, e)),
            crate::spec_parse_header(bytes@) matches Ok(hc) ==> ({
                let payload = bytes@.subrange(hc.1, bytes@.len() as int);
                match hc.0.compression {
                    Compression::Plain => r matches Ok(d) && d.wf() && d@.pos == 0 && d@.body
                        == payload,
                    Compression::Deflate(_l) => {
                        &&& (r matches Ok(d) ==> d.wf() && d@.pos == 0 && forall|
                            d0: Seq<u8>,
                            l0: u32,
                        | payload == crate::compress::deflate_of(d0, l0) ==> d@.body == d0)
                        &&& (r is Err ==> forall|d0: Seq<u8>, l0: u32|
                            payload != crate::compress::deflate_of(d0, l0))
                    },
                    Compression::Gzip(_l) => {
                        &&& (r matches Ok(d) ==> d.wf() && d@.pos == 0 && forall|
                            d0: Seq<u8>,
                            l0: u32,
                        | payload == crate::compress::gzip_of(d0, l0) ==> d@.body == d0)
                        &&& (r is Err ==> forall|d0: Seq<u8>, l0: u32|
                            payload != crate::compress::gzip_of(d0, l0))
                    },
                    Compression::Zlib(_l) => {
                        &&& (r matches Ok(d) ==> d.wf() && d@.pos == 0 && forall|
                            d0: Seq<u8>,
                            l0: u32,
                        | payload == crate::compress::zlib_of(d0, l0) ==> d@.body == d0)
                        &&& (r is Err ==> forall|d0: Seq<u8>, l0: u32|
                            payload != crate::compress::zlib_of(d0, l0))
                    },
                }
            }),
    {
        let (header, used) = match crate::FileHeader::from_reader(bytes) {
            Ok(p) => p,
            Err(e) => {
                return Err(e);
            },
        };
        let payload = crate::wire::copy_range(bytes, used, bytes.len());
        let body = match header.compression {
            Compression::Plain => payload,
            Compression::Deflate(_l) => match crate::compress::deflate_decompress(&payload) {
                Ok(b) => b,
                Err(e) => {
                    return Err(e);
                },
            },
            Compression::Gzip(_l) => match crate::compress::gzip_decompress(&payload) {
                Ok(b) => b,
                Err(e) => {
                    return Err(e);
                },
            },
            Compression::Zlib(_l) => match crate::compress::zlib_decompress(&payload) {
                Ok(b) => b,
                Err(e) => {
                    return Err(e);
                },
            },
        };
        Ok(Deserializer { body, pos: 0 })
    }
}

/// Deserializes one value from a complete byte stream.
///
/// For every well-formed value and every compression setting, the bytes
/// [`crate::se::to_bytes`] produces decode back to exactly that value.
/// A stream whose header is broken fails with the exact header error:
/// wrong magic with `InvalidHeader` carrying what was found, wrong
/// version with `InvalidVersion`, an unknown compression kind with
/// `InvalidCompression`, a truncated header with `UnexpectedEof`.
/// A complete stream for a well-formed value parses to the fixed header
/// and carries the value's bytes through the transport.
proof fn lemma_stream_parses(bytes: Seq<u8>, v: SpecValue, c: Compression)
    requires
        crate::value::wf_value(v),
        bytes == crate::se::spec_stream_bytes(v, c),
    ensures
        crate::spec_parse_header(bytes) matches Ok(hc) && hc.0 == (crate::HeaderView {
            compression: c,
            version: 1u8,
            header_name: crate::magic_bytes(),
        }) && bytes.subrange(hc.1, bytes.len() as int)
            == crate::compress::spec_body_transport(c, value_bytes(v)),
{
    let hv = crate::HeaderView { compression: c, version: 1u8, header_name: crate::magic_bytes() };
    let transported = crate::compress::spec_body_transport(c, value_bytes(v));
    crate::lemma_parse_header_round_trip(hv, transported);
    let used = crate::spec_header_bytes(hv).len() as int;
    assert(bytes.subrange(used, bytes.len() as int) =~= transported);
}

#[verifier::rlimit(100)]
#[verifier::spinoff_prover]
pub fn from_slice(bytes: &Vec<u8>) -> (r: Result<Value, Error>)
    ensures
        forall|v: SpecValue, c: Compression|
            crate::value::wf_value(v) && bytes@ == crate::se::spec_stream_bytes(v, c) ==> (
            r matches Ok(out) && out@ == v),
        crate::spec_parse_header(bytes@) matches Err(i) ==> (r matches Err(e)
            && crate::header_error_for(i, e)),
{
    let nr = Deserializer::new(bytes);
    let mut de = match nr {
        Ok(d) => d,
        Err(e) => {
            proof {
                assert forall|v: SpecValue, c: Compression|
                    !(crate::value::wf_value(v) && bytes@ == crate::se::spec_stream_bytes(
                        v,
                        c,
                    )) by {
                    if crate::value::wf_value(v) && bytes@ == crate::se::spec_stream_bytes(v, c) {
                        lemma_stream_parses(bytes@, v, c);
                    }
                }
            }
            return Err(e);
        },
    };
    let ghost de0 = de;
    let r = de.deserialize_any();
    proof {
        assert forall|v: SpecValue, c: Compression|
            crate::value::wf_value(v) && bytes@ == crate::se::spec_stream_bytes(v, c) implies (
        r matches Ok(out) && out@ == v) by {
            lemma_stream_parses(bytes@, v, c);
            assert(de0@.body == value_bytes(v));
            assert(de0.rest() =~= value_bytes(v) + Seq::<u8>::empty());
            lemma_decode_value_round_trip(v, Seq::<u8>::empty());
        }
    }
    r
}

/// A decoded prefix joined onto the outcome of decoding the remaining
/// elements.
pub open spec fn spec_list_join(
    prefix: Seq<SpecValue>,
    r: Result<(Seq<SpecValue>, Seq<u8>), Error>,
) -> Result<(Seq<SpecValue>, Seq<u8>), Error> {
    match r {
        Ok(p) => Ok((prefix + p.0, p.1)),
        Err(e) => Err(e),
    }
}

/// A decoded prefix joined onto the outcome of decoding the remaining
/// pairs.
pub open spec fn spec_pairs_join(
    prefix: Seq<(SpecValue, SpecValue)>,
    r: Result<(Seq<(SpecValue, SpecValue)>, Seq<u8>), Error>,
) -> Result<(Seq<(SpecValue, SpecValue)>, Seq<u8>), Error> {
    match r {
        Ok(p) => Ok((prefix + p.0, p.1)),
        Err(e) => Err(e),
    }
}

impl Deserializer {
    /// Decodes one value of any shape, chosen purely from the next tag.
    /// Agrees exactly with [`spec_decode_value`] on the unread bytes.
    pub fn deserialize_any(&mut self) -> (r: Result<Value, Error>)
        requires
            old(self).wf(),
        ensures
            final(self).wf(),
            final(self)@.body == old(self)@.body,
            old(self)@.pos <= final(self)@.pos,
            spec_decode_value(old(self).rest()) matches Ok(p) ==> (r matches Ok(v) && v@ == p.0
                && final(self).rest() == p.1 && old(self)@.pos < final(self)@.pos),
            spec_decode_value(old(self).rest()) matches Err(e) ==> (r matches Err(e2) && e2 == e),
        decreases self@.body.len() - self@.pos, 0int,
    {
        let ghost s = old(self).rest();
        let tag = match self.take_u8() {
            Ok(b) => b,
            Err(e) => {
                return Err(e);
            },
        };
        let ghost t = s.subrange(1, s.len() as int);
        proof {
            assert(self.rest() =~= t);
        }
        if tag == NULL_ID {
            Ok(Value::Null)
        } else if tag == BOOL_ID {
            let b = match self.take_u8() {
                Ok(b) => b,
                Err(e) => {
                    return Err(e);
                },
            };
            proof {
                assert(self.rest() =~= t.subrange(1, t.len() as int));
            }
            Ok(Value::Bool(b != 0))
        } else if tag == I8_ID {
            let b = match self.take_u8() {
                Ok(b) => b,
                Err(e) => {
                    return Err(e);
                },
            };
            proof {
                assert(self.rest() =~= t.subrange(1, t.len() as int));
            }
            Ok(Value::I8(b as i8))
        } else if tag == I16_ID {
            let x = match self.take_u16() {
                Ok(x) => x,
                Err(e) => {
                    return Err(e);
                },
            };
            proof {
                assert(self.rest() =~= t.subrange(2, t.len() as int));
            }
            Ok(Value::I16(x as i16))
        } else if tag == I32_ID {
            let x = match self.take_u32() {
                Ok(x) => x,
                Err(e) => {
                    return Err(e);
                },
            };
            proof {
                assert(self.rest() =~= t.subrange(4, t.len() as int));
            }
            Ok(Value::I32(x as i32))
        } else if tag == I64_ID {
            let x = match self.take_u64() {
                Ok(x) => x,
                Err(e) => {
                    return Err(e);
                },
            };
            proof {
                assert(self.rest() =~= t.subrange(8, t.len() as int));
            }
            Ok(Value::I64(x as i64))
        } else if tag == U8_ID {
            let b = match self.take_u8() {
                Ok(b) => b,
                Err(e) => {
                    return Err(e);
                },
            };
            proof {
                assert(self.rest() =~= t.subrange(1, t.len() as int));
            }
            Ok(Value::U8(b))
        } else if tag == U16_ID {
            let x = match self.take_u16() {
                Ok(x) => x,
                Err(e) => {
                    return Err(e);
                },
            };
            proof {
                assert(self.rest() =~= t.subrange(2, t.len() as int));
            }
            Ok(Value::U16(x))
        } else if tag == U32_ID {
            let x = match self.take_u32() {
                Ok(x) => x,
                Err(e) => {
                    return Err(e);
                },
            };
            proof {
                assert(self.rest() =~= t.subrange(4, t.len() as int));
            }
            Ok(Value::U32(x))
        } else if tag == U64_ID {
            let x = match self.take_u64() {
                Ok(x) => x,
                Err(e) => {
                    return Err(e);
                },
            };
            proof {
                assert(self.rest() =~= t.subrange(8, t.len() as int));
            }
            Ok(Value::U64(x))
        } else if tag == F32_ID {
            let x = match self.take_u32() {
                Ok(x) => x,
                Err(e) => {
                    return Err(e);
                },
            };
            proof {
                assert(self.rest() =~= t.subrange(4, t.len() as int));
            }
            Ok(Value::F32Bits(x))
        } else if tag == F64_ID {
            let x = match self.take_u64() {
                Ok(x) => x,
                Err(e) => {
                    return Err(e);
                },
            };
            proof {
                assert(self.rest() =~= t.subrange(8, t.len() as int));
            }
            Ok(Value::F64Bits(x))
        } else if tag == CHAR_ID {
            let b0 = match self.peek_u8() {
                Ok(b) => b,
                Err(e) => {
                    return Err(e);
                },
            };
            let w: usize = if 0xc0 <= b0 && b0 <= 0xdf {
                2
            } else if 0xe0 <= b0 && b0 <= 0xef {
                3
            } else if 0xf0 <= b0 && b0 <= 0xf7 {
                4
            } else {
                1
            };
            proof {
                assert(w == spec_char_width(t[0]));
            }
            if self.body.len() - self.pos < w {
                return Err(Error::UnexpectedEof);
            }
            let ghost cb = t.subrange(0, w as int);
            proof {
                assert(self@.body.subrange(self@.pos, self@.pos + w) =~= cb);
            }
            match crate::text::scalar_check(&self.body, self.pos, self.pos + w) {
                Option::None => {
                    return Err(Error::FromUtf8Error);
                },
                Option::Some((cp, _l)) => {
                    match crate::text::char_from_u32(cp) {
                        Option::Some(c) => {
                            proof {
                                char_u32_cast(c, cp);
                            }
                            self.pos = self.pos + w;
                            proof {
                                assert(self.rest() =~= t.subrange(w as int, t.len() as int));
                            }
                            Ok(Value::Char(c))
                        },
                        Option::None => {
                            proof {
                                assert(false);
                            }
                            Err(Error::FromUtf8Error)
                        },
                    }
                },
            }
        } else if tag == STR_ID {
            let n = match self.take_u32() {
                Ok(x) => x,
                Err(e) => {
                    return Err(e);
                },
            };
            let ghost t2 = t.subrange(4, t.len() as int);
            proof {
                assert(self.rest() =~= t2);
            }
            let nu = n as usize;
            if self.body.len() - self.pos < nu {
                return Err(Error::UnexpectedEof);
            }
            proof {
                assert(self@.body.subrange(self@.pos, self@.pos + nu) =~= t.subrange(4, 4 + n));
            }
            if !crate::text::utf8_check(&self.body, self.pos, self.pos + nu) {
                return Err(Error::FromUtf8Error);
            }
            match self.take_exact(nu) {
                Ok(bytes) => {
                    proof {
                        assert(bytes@ =~= t.subrange(4, 4 + n));
                        assert(self.rest() =~= t.subrange(4 + n, t.len() as int));
                    }
                    Ok(Value::Str(bytes))
                },
                Err(e) => {
                    proof {
                        assert(false);
                    }
                    Err(e)
                },
            }
        } else if tag == BYTES_ID {
            let n = match self.take_u32() {
                Ok(x) => x,
                Err(e) => {
                    return Err(e);
                },
            };
            let nu = n as usize;
            if self.body.len() - self.pos < nu {
                return Err(Error::UnexpectedEof);
            }
            match self.take_exact(nu) {
                Ok(bytes) => {
                    proof {
                        assert(bytes@ =~= t.subrange(4, 4 + n));
                        assert(self.rest() =~= t.subrange(4 + n, t.len() as int));
                    }
                    Ok(Value::Bytes(bytes))
                },
                Err(e) => {
                    proof {
                        assert(false);
                    }
                    Err(e)
                },
            }
        } else if tag == SEQ_ID || tag == TUPLE_ID || tag == TUPLE_STRUCT_ID {
            let n = match self.take_u32() {
                Ok(x) => x,
                Err(e) => {
                    return Err(e);
                },
            };
            proof {
                assert(self.rest() =~= t.subrange(4, t.len() as int));
            }
            let elems = match self.decode_list(n) {
                Ok(v) => v,
                Err(e) => {
                    return Err(e);
                },
            };
            if tag == SEQ_ID {
                Ok(Value::Sequence(elems))
            } else if tag == TUPLE_ID {
                Ok(Value::Tuple(elems))
            } else {
                Ok(Value::TupleStruct(elems))
            }
        } else if tag == MAP_ID {
            let n = match self.take_u32() {
                Ok(x) => x,
                Err(e) => {
                    return Err(e);
                },
            };
            proof {
                assert(self.rest() =~= t.subrange(4, t.len() as int));
            }
            let pairs = match self.decode_pairs(n) {
                Ok(v) => v,
                Err(e) => {
                    return Err(e);
                },
            };
            Ok(Value::Mapping(pairs))
        } else if tag == UNIT_VARIANT_ID {
            let i = match self.take_u32() {
                Ok(x) => x,
                Err(e) => {
                    return Err(e);
                },
            };
            proof {
                assert(self.rest() =~= t.subrange(4, t.len() as int));
            }
            Ok(Value::UnitVariant(i))
        } else if tag == NEWTYPE_VARIANT_ID {
            let i = match self.take_u32() {
                Ok(x) => x,
                Err(e) => {
                    return Err(e);
                },
            };
            proof {
                assert(self.rest() =~= t.subrange(4, t.len() as int));
            }
            let inner = match self.deserialize_any() {
                Ok(v) => v,
                Err(e) => {
                    return Err(e);
                },
            };
            Ok(Value::NewtypeVariant(i, Box::new(inner)))
        } else if tag == TUPLE_VARIANT_ID {
            let i = match self.take_u32() {
                Ok(x) => x,
                Err(e) => {
                    return Err(e);
                },
            };
            let n = match self.take_u32() {
                Ok(x) => x,
                Err(e) => {
                    return Err(e);
                },
            };
            proof {
                assert(self.rest() =~= t.subrange(8, t.len() as int));
            }
            let elems = match self.decode_list(n) {
                Ok(v) => v,
                Err(e) => {
                    return Err(e);
                },
            };
            Ok(Value::TupleVariant(i, elems))
        } else if tag == STRUCT_VARIANT_ID {
            let i = match self.take_u32() {
                Ok(x) => x,
                Err(e) => {
                    return Err(e);
                },
            };
            let n = match self.take_u32() {
                Ok(x) => x,
                Err(e) => {
                    return Err(e);
                },
            };
            proof {
                assert(self.rest() =~= t.subrange(8, t.len() as int));
            }
            let pairs = match self.decode_pairs(n) {
                Ok(v) => v,
                Err(e) => {
                    return Err(e);
                },
            };
            Ok(Value::StructVariant(i, pairs))
        } else {
            Err(Error::InvalidDataId { expected: ExpectedId::AnyValue, found: tag })
        }
    }

    /// Decodes `n` consecutive elements.
    fn decode_list(&mut self, n: u32) -> (r: Result<Vec<Value>, Error>)
        requires
            old(self).wf(),
        ensures
            final(self).wf(),
            final(self)@.body == old(self)@.body,
            old(self)@.pos <= final(self)@.pos,
            spec_decode_list(old(self).rest(), n as nat) matches Ok(p) ==> (r matches Ok(vs)
                && view_list(vs@) == p.0 && final(self).rest() == p.1),
            spec_decode_list(old(self).rest(), n as nat) matches Err(e) ==> (r matches Err(e2)
                && e2 == e),
        decreases self@.body.len() - self@.pos, n as int + 1,
    {
        let ghost s0 = old(self).rest();
        let mut out: Vec<Value> = Vec::new();
        let mut k: u32 = 0;
        proof {
            assert(view_list(out@) =~= Seq::<SpecValue>::empty());
            if let Ok(p) = spec_decode_list(s0, n as nat) {
                assert(view_list(out@) + p.0 =~= p.0);
            }
        }
        while k < n
            invariant
                self.wf(),
                self@.body == old(self)@.body,
                old(self)@.pos <= self@.pos,
                k <= n,
                s0 == old(self).rest(),
                spec_decode_list(s0, n as nat) == spec_list_join(
                    view_list(out@),
                    spec_decode_list(self.rest(), (n - k) as nat),
                ),
            decreases n - k,
        {
            let ghost rest_k = self.rest();
            let ghost prefix = view_list(out@);
            let v = match self.deserialize_any() {
                Ok(v) => v,
                Err(e) => {
                    return Err(e);
                },
            };
            proof {
                assert(self.rest().len() < rest_k.len());
                crate::value::lemma_view_list_push(out@, v);
                if let Ok(p2) = spec_decode_list(self.rest(), (n - k - 1) as nat) {
                    assert(prefix + (seq![v@] + p2.0) =~= (prefix + seq![v@]) + p2.0);
                }
            }
            out.push(v);
            k = k + 1;
        }
        proof {
            assert(self.rest().subrange(0, self.rest().len() as int) =~= self.rest());
            if let Ok(p) = spec_decode_list(self.rest(), 0nat) {
                assert(view_list(out@) + p.0 =~= view_list(out@));
            }
        }
        Ok(out)
    }

    /// Decodes `n` consecutive key/value pairs.
    fn decode_pairs(&mut self, n: u32) -> (r: Result<Vec<(Value, Value)>, Error>)
        requires
            old(self).wf(),
        ensures
            final(self).wf(),
            final(self)@.body == old(self)@.body,
            old(self)@.pos <= final(self)@.pos,
            spec_decode_pairs(old(self).rest(), n as nat) matches Ok(p) ==> (r matches Ok(vs)
                && view_pairs(vs@) == p.0 && final(self).rest() == p.1),
            spec_decode_pairs(old(self).rest(), n as nat) matches Err(e) ==> (r matches Err(e2)
                && e2 == e),
        decreases self@.body.len() - self@.pos, n as int + 1,
    {
        let ghost s0 = old(self).rest();
        let mut out: Vec<(Value, Value)> = Vec::new();
        let mut k: u32 = 0;
        proof {
            assert(view_pairs(out@) =~= Seq::<(SpecValue, SpecValue)>::empty());
            if let Ok(p) = spec_decode_pairs(s0, n as nat) {
                assert(view_pairs(out@) + p.0 =~= p.0);
            }
        }
        while k < n
            invariant
                self.wf(),
                self@.body == old(self)@.body,
                old(self)@.pos <= self@.pos,
                k <= n,
                s0 == old(self).rest(),
                spec_decode_pairs(s0, n as nat) == spec_pairs_join(
                    view_pairs(out@),
                    spec_decode_pairs(self.rest(), (n - k) as nat),
                ),
            decreases n - k,
        {
            let ghost rest_k = self.rest();
            let ghost prefix = view_pairs(out@);
            let key = match self.deserialize_any() {
                Ok(v) => v,
                Err(e) => {
                    return Err(e);
                },
            };
            proof {
                assert(self.rest().len() < rest_k.len());
            }
            let ghost rest_k1 = self.rest();
            let val = match self.deserialize_any() {
                Ok(v) => v,
                Err(e) => {
                    return Err(e);
                },
            };
            proof {
                assert(self.rest().len() < rest_k1.len());
                crate::value::lemma_view_pairs_push(out@, key, val);
                if let Ok(p2) = spec_decode_pairs(self.rest(), (n - k - 1) as nat) {
                    assert(prefix + (seq![(key@, val@)] + p2.0) =~= (prefix + seq![(key@, val@)])
                        + p2.0);
                }
            }
            out.push((key, val));
            k = k + 1;
        }
        proof {
            if let Ok(p) = spec_decode_pairs(self.rest(), 0nat) {
                assert(view_pairs(out@) + p.0 =~= view_pairs(out@));
            }
        }
        Ok(out)
    }
}


impl Deserializer {
    /// Consumes one tag byte and demands that it is the expected one,
    /// failing with a tag-mismatch error otherwise.
    pub fn read_id(&mut self, expected: u8) -> (r: Result<(), Error>)
        requires
            old(self).wf(),
        ensures
            final(self).wf(),
            final(self)@.body == old(self)@.body,
            old(self)@.pos <= final(self)@.pos,
            old(self).rest().len() == 0 ==> (r matches Err(e) && e is UnexpectedEof),
            old(self).rest().len() >= 1 && old(self).rest()[0] == expected ==> (r is Ok && final(self)@.pos == old(self)@.pos + 1),
            old(self).rest().len() >= 1 && old(self).rest()[0] != expected ==> (r matches Err(e)
                && e == (Error::InvalidDataId {
                expected: ExpectedId::Exact(expected),
                found: old(self).rest()[0],
            }) && final(self)@.pos == old(self)@.pos + 1),
    {
        match self.take_u8() {
            Err(e) => Err(e),
            Ok(found) => {
                if found == expected {
                    Ok(())
                } else {
                    Err(Error::InvalidDataId { expected: ExpectedId::Exact(expected), found })
                }
            },
        }
    }
}

impl Deserializer {
    /// Decodes one `bool`, failing on any other tag.
    pub fn deserialize_bool(&mut self) -> (r: Result<bool, Error>)
        requires
            old(self).wf(),
        ensures
            final(self).wf(),
            final(self)@.body == old(self)@.body,
            old(self)@.pos <= final(self)@.pos,
            old(self).rest().len() == 0 ==> (r matches Err(e) && e is UnexpectedEof),
            old(self).rest().len() >= 1 && old(self).rest()[0] != BOOL_ID ==> (r matches Err(e)
                && e == (Error::InvalidDataId {
                expected: ExpectedId::Exact(BOOL_ID),
                found: old(self).rest()[0],
            })),
            old(self).rest().len() >= 1 && old(self).rest()[0] == BOOL_ID ==> (match spec_decode_value(
                old(self).rest(),
            ) {
                Ok(p) => r matches Ok(x) && p.0 == SpecValue::Bool(x) && final(self).rest()
                    == p.1,
                Err(e) => r matches Err(e2) && e2 == e,
            }),
    {
        let tag = match self.peek_u8() {
            Ok(b) => b,
            Err(e) => {
                return Err(e);
            },
        };
        if tag != BOOL_ID {
            let _ = self.take_u8();
            return Err(Error::InvalidDataId { expected: ExpectedId::Exact(BOOL_ID), found: tag });
        }
        match self.deserialize_any() {
            Ok(v) => match v {
                Value::Bool(x) => Ok(x),
                _ => {
                    proof {
                        assert(false);
                    }
                    Err(Error::UnexpectedEof)
                },
            },
            Err(e) => Err(e),
        }
    }

    /// Decodes one `i8`, failing on any other tag.
    pub fn deserialize_i8(&mut self) -> (r: Result<i8, Error>)
        requires
            old(self).wf(),
        ensures
            final(self).wf(),
            final(self)@.body == old(self)@.body,
            old(self)@.pos <= final(self)@.pos,
            old(self).rest().len() == 0 ==> (r matches Err(e) && e is UnexpectedEof),
            old(self).rest().len() >= 1 && old(self).rest()[0] != I8_ID ==> (r matches Err(e)
                && e == (Error::InvalidDataId {
                expected: ExpectedId::Exact(I8_ID),
                found: old(self).rest()[0],
            })),
            old(self).rest().len() >= 1 && old(self).rest()[0] == I8_ID ==> (match spec_decode_value(
                old(self).rest(),
            ) {
                Ok(p) => r matches Ok(x) && p.0 == SpecValue::I8(x) && final(self).rest()
                    == p.1,
                Err(e) => r matches Err(e2) && e2 == e,
            }),
    {
        let tag = match self.peek_u8() {
            Ok(b) => b,
            Err(e) => {
                return Err(e);
            },
        };
        if tag != I8_ID {
            let _ = self.take_u8();
            return Err(Error::InvalidDataId { expected: ExpectedId::Exact(I8_ID), found: tag });
        }
        match self.deserialize_any() {
            Ok(v) => match v {
                Value::I8(x) => Ok(x),
                _ => {
                    proof {
                        assert(false);
                    }
                    Err(Error::UnexpectedEof)
                },
            },
            Err(e) => Err(e),
        }
    }

    /// Decodes one `i16`, failing on any other tag.
    pub fn deserialize_i16(&mut self) -> (r: Result<i16, Error>)
        requires
            old(self).wf(),
        ensures
            final(self).wf(),
            final(self)@.body == old(self)@.body,
            old(self)@.pos <= final(self)@.pos,
            old(self).rest().len() == 0 ==> (r matches Err(e) && e is UnexpectedEof),
            old(self).rest().len() >= 1 && old(self).rest()[0] != I16_ID ==> (r matches Err(e)
                && e == (Error::InvalidDataId {
                expected: ExpectedId::Exact(I16_ID),
                found: old(self).rest()[0],
            })),
            old(self).rest().len() >= 1 && old(self).rest()[0] == I16_ID ==> (match spec_decode_value(
                old(self).rest(),
            ) {
                Ok(p) => r matches Ok(x) && p.0 == SpecValue::I16(x) && final(self).rest()
                    == p.1,
                Err(e) => r matches Err(e2) && e2 == e,
            }),
    {
        let tag = match self.peek_u8() {
            Ok(b) => b,
            Err(e) => {
                return Err(e);
            },
        };
        if tag != I16_ID {
            let _ = self.take_u8();
            return Err(Error::InvalidDataId { expected: ExpectedId::Exact(I16_ID), found: tag });
        }
        match self.deserialize_any() {
            Ok(v) => match v {
                Value::I16(x) => Ok(x),
                _ => {
                    proof {
                        assert(false);
                    }
                    Err(Error::UnexpectedEof)
                },
            },
            Err(e) => Err(e),
        }
    }

    /// Decodes one `i32`, failing on any other tag.
    pub fn deserialize_i32(&mut self) -> (r: Result<i32, Error>)
        requires
            old(self).wf(),
        ensures
            final(self).wf(),
            final(self)@.body == old(self)@.body,
            old(self)@.pos <= final(self)@.pos,
            old(self).rest().len() == 0 ==> (r matches Err(e) && e is UnexpectedEof),
            old(self).rest().len() >= 1 && old(self).rest()[0] != I32_ID ==> (r matches Err(e)
                && e == (Error::InvalidDataId {
                expected: ExpectedId::Exact(I32_ID),
                found: old(self).rest()[0],
            })),
            old(self).rest().len() >= 1 && old(self).rest()[0] == I32_ID ==> (match spec_decode_value(
                old(self).rest(),
            ) {
                Ok(p) => r matches Ok(x) && p.0 == SpecValue::I32(x) && final(self).rest()
                    == p.1,
                Err(e) => r matches Err(e2) && e2 == e,
            }),
    {
        let tag = match self.peek_u8() {
            Ok(b) => b,
            Err(e) => {
                return Err(e);
            },
        };
        if tag != I32_ID {
            let _ = self.take_u8();
            return Err(Error::InvalidDataId { expected: ExpectedId::Exact(I32_ID), found: tag });
        }
        match self.deserialize_any() {
            Ok(v) => match v {
                Value::I32(x) => Ok(x),
                _ => {
                    proof {
                        assert(false);
                    }
                    Err(Error::UnexpectedEof)
                },
            },
            Err(e) => Err(e),
        }
    }

    /// Decodes one `i64`, failing on any other tag.
    pub fn deserialize_i64(&mut self) -> (r: Result<i64, Error>)
        requires
            old(self).wf(),
        ensures
            final(self).wf(),
            final(self)@.body == old(self)@.body,
            old(self)@.pos <= final(self)@.pos,
            old(self).rest().len() == 0 ==> (r matches Err(e) && e is UnexpectedEof),
            old(self).rest().len() >= 1 && old(self).rest()[0] != I64_ID ==> (r matches Err(e)
                && e == (Error::InvalidDataId {
                expected: ExpectedId::Exact(I64_ID),
                found: old(self).rest()[0],
            })),
            old(self).rest().len() >= 1 && old(self).rest()[0] == I64_ID ==> (match spec_decode_value(
                old(self).rest(),
            ) {
                Ok(p) => r matches Ok(x) && p.0 == SpecValue::I64(x) && final(self).rest()
                    == p.1,
                Err(e) => r matches Err(e2) && e2 == e,
            }),
    {
        let tag = match self.peek_u8() {
            Ok(b) => b,
            Err(e) => {
                return Err(e);
            },
        };
        if tag != I64_ID {
            let _ = self.take_u8();
            return Err(Error::InvalidDataId { expected: ExpectedId::Exact(I64_ID), found: tag });
        }
        match self.deserialize_any() {
            Ok(v) => match v {
                Value::I64(x) => Ok(x),
                _ => {
                    proof {
                        assert(false);
                    }
                    Err(Error::UnexpectedEof)
                },
            },
            Err(e) => Err(e),
        }
    }

    /// Decodes one `u8`, failing on any other tag.
    pub fn deserialize_u8(&mut self) -> (r: Result<u8, Error>)
        requires
            old(self).wf(),
        ensures
            final(self).wf(),
            final(self)@.body == old(self)@.body,
            old(self)@.pos <= final(self)@.pos,
            old(self).rest().len() == 0 ==> (r matches Err(e) && e is UnexpectedEof),
            old(self).rest().len() >= 1 && old(self).rest()[0] != U8_ID ==> (r matches Err(e)
                && e == (Error::InvalidDataId {
                expected: ExpectedId::Exact(U8_ID),
                found: old(self).rest()[0],
            })),
            old(self).rest().len() >= 1 && old(self).rest()[0] == U8_ID ==> (match spec_decode_value(
                old(self).rest(),
            ) {
                Ok(p) => r matches Ok(x) && p.0 == SpecValue::U8(x) && final(self).rest()
                    == p.1,
                Err(e) => r matches Err(e2) && e2 == e,
            }),
    {
        let tag = match self.peek_u8() {
            Ok(b) => b,
            Err(e) => {
                return Err(e);
            },
        };
        if tag != U8_ID {
            let _ = self.take_u8();
            return Err(Error::InvalidDataId { expected: ExpectedId::Exact(U8_ID), found: tag });
        }
        match self.deserialize_any() {
            Ok(v) => match v {
                Value::U8(x) => Ok(x),
                _ => {
                    proof {
                        assert(false);
                    }
                    Err(Error::UnexpectedEof)
                },
            },
            Err(e) => Err(e),
        }
    }

    /// Decodes one `u16`, failing on any other tag.
    pub fn deserialize_u16(&mut self) -> (r: Result<u16, Error>)
        requires
            old(self).wf(),
        ensures
            final(self).wf(),
            final(self)@.body == old(self)@.body,
            old(self)@.pos <= final(self)@.pos,
            old(self).rest().len() == 0 ==> (r matches Err(e) && e is UnexpectedEof),
            old(self).rest().len() >= 1 && old(self).rest()[0] != U16_ID ==> (r matches Err(e)
                && e == (Error::InvalidDataId {
                expected: ExpectedId::Exact(U16_ID),
                found: old(self).rest()[0],
            })),
            old(self).rest().len() >= 1 && old(self).rest()[0] == U16_ID ==> (match spec_decode_value(
                old(self).rest(),
            ) {
                Ok(p) => r matches Ok(x) && p.0 == SpecValue::U16(x) && final(self).rest()
                    == p.1,
                Err(e) => r matches Err(e2) && e2 == e,
            }),
    {
        let tag = match self.peek_u8() {
            Ok(b) => b,
            Err(e) => {
                return Err(e);
            },
        };
        if tag != U16_ID {
            let _ = self.take_u8();
            return Err(Error::InvalidDataId { expected: ExpectedId::Exact(U16_ID), found: tag });
        }
        match self.deserialize_any() {
            Ok(v) => match v {
                Value::U16(x) => Ok(x),
                _ => {
                    proof {
                        assert(false);
                    }
                    Err(Error::UnexpectedEof)
                },
            },
            Err(e) => Err(e),
        }
    }

    /// Decodes one `u32`, failing on any other tag.
    pub fn deserialize_u32(&mut self) -> (r: Result<u32, Error>)
        requires
            old(self).wf(),
        ensures
            final(self).wf(),
            final(self)@.body == old(self)@.body,
            old(self)@.pos <= final(self)@.pos,
            old(self).rest().len() == 0 ==> (r matches Err(e) && e is UnexpectedEof),
            old(self).rest().len() >= 1 && old(self).rest()[0] != U32_ID ==> (r matches Err(e)
                && e == (Error::InvalidDataId {
                expected: ExpectedId::Exact(U32_ID),
                found: old(self).rest()[0],
            })),
            old(self).rest().len() >= 1 && old(self).rest()[0] == U32_ID ==> (match spec_decode_value(
                old(self).rest(),
            ) {
                Ok(p) => r matches Ok(x) && p.0 == SpecValue::U32(x) && final(self).rest()
                    == p.1,
                Err(e) => r matches Err(e2) && e2 == e,
            }),
    {
        let tag = match self.peek_u8() {
            Ok(b) => b,
            Err(e) => {
                return Err(e);
            },
        };
        if tag != U32_ID {
            let _ = self.take_u8();
            return Err(Error::InvalidDataId { expected: ExpectedId::Exact(U32_ID), found: tag });
        }
        match self.deserialize_any() {
            Ok(v) => match v {
                Value::U32(x) => Ok(x),
                _ => {
                    proof {
                        assert(false);
                    }
                    Err(Error::UnexpectedEof)
                },
            },
            Err(e) => Err(e),
        }
    }

    /// Decodes one `u64`, failing on any other tag.
    pub fn deserialize_u64(&mut self) -> (r: Result<u64, Error>)
        requires
            old(self).wf(),
        ensures
            final(self).wf(),
            final(self)@.body == old(self)@.body,
            old(self)@.pos <= final(self)@.pos,
            old(self).rest().len() == 0 ==> (r matches Err(e) && e is UnexpectedEof),
            old(self).rest().len() >= 1 && old(self).rest()[0] != U64_ID ==> (r matches Err(e)
                && e == (Error::InvalidDataId {
                expected: ExpectedId::Exact(U64_ID),
                found: old(self).rest()[0],
            })),
            old(self).rest().len() >= 1 && old(self).rest()[0] == U64_ID ==> (match spec_decode_value(
                old(self).rest(),
            ) {
                Ok(p) => r matches Ok(x) && p.0 == SpecValue::U64(x) && final(self).rest()
                    == p.1,
                Err(e) => r matches Err(e2) && e2 == e,
            }),
    {
        let tag = match self.peek_u8() {
            Ok(b) => b,
            Err(e) => {
                return Err(e);
            },
        };
        if tag != U64_ID {
            let _ = self.take_u8();
            return Err(Error::InvalidDataId { expected: ExpectedId::Exact(U64_ID), found: tag });
        }
        match self.deserialize_any() {
            Ok(v) => match v {
                Value::U64(x) => Ok(x),
                _ => {
                    proof {
                        assert(false);
                    }
                    Err(Error::UnexpectedEof)
                },
            },
            Err(e) => Err(e),
        }
    }

    /// Decodes one 32-bit float, as its IEEE-754 bit pattern, failing on any other tag.
    pub fn deserialize_f32_bits(&mut self) -> (r: Result<u32, Error>)
        requires
            old(self).wf(),
        ensures
            final(self).wf(),
            final(self)@.body == old(self)@.body,
            old(self)@.pos <= final(self)@.pos,
            old(self).rest().len() == 0 ==> (r matches Err(e) && e is UnexpectedEof),
            old(self).rest().len() >= 1 && old(self).rest()[0] != F32_ID ==> (r matches Err(e)
                && e == (Error::InvalidDataId {
                expected: ExpectedId::Exact(F32_ID),
                found: old(self).rest()[0],
            })),
            old(self).rest().len() >= 1 && old(self).rest()[0] == F32_ID ==> (match spec_decode_value(
                old(self).rest(),
            ) {
                Ok(p) => r matches Ok(x) && p.0 == SpecValue::F32Bits(x) && final(self).rest()
                    == p.1,
                Err(e) => r matches Err(e2) && e2 == e,
            }),
    {
        let tag = match self.peek_u8() {
            Ok(b) => b,
            Err(e) => {
                return Err(e);
            },
        };
        if tag != F32_ID {
            let _ = self.take_u8();
            return Err(Error::InvalidDataId { expected: ExpectedId::Exact(F32_ID), found: tag });
        }
        match self.deserialize_any() {
            Ok(v) => match v {
                Value::F32Bits(x) => Ok(x),
                _ => {
                    proof {
                        assert(false);
                    }
                    Err(Error::UnexpectedEof)
                },
            },
            Err(e) => Err(e),
        }
    }

    /// Decodes one 64-bit float, as its IEEE-754 bit pattern, failing on any other tag.
    pub fn deserialize_f64_bits(&mut self) -> (r: Result<u64, Error>)
        requires
            old(self).wf(),
        ensures
            final(self).wf(),
            final(self)@.body == old(self)@.body,
            old(self)@.pos <= final(self)@.pos,
            old(self).rest().len() == 0 ==> (r matches Err(e) && e is UnexpectedEof),
            old(self).rest().len() >= 1 && old(self).rest()[0] != F64_ID ==> (r matches Err(e)
                && e == (Error::InvalidDataId {
                expected: ExpectedId::Exact(F64_ID),
                found: old(self).rest()[0],
            })),
            old(self).rest().len() >= 1 && old(self).rest()[0] == F64_ID ==> (match spec_decode_value(
                old(self).rest(),
            ) {
                Ok(p) => r matches Ok(x) && p.0 == SpecValue::F64Bits(x) && final(self).rest()
                    == p.1,
                Err(e) => r matches Err(e2) && e2 == e,
            }),
    {
        let tag = match self.peek_u8() {
            Ok(b) => b,
            Err(e) => {
                return Err(e);
            },
        };
        if tag != F64_ID {
            let _ = self.take_u8();
            return Err(Error::InvalidDataId { expected: ExpectedId::Exact(F64_ID), found: tag });
        }
        match self.deserialize_any() {
            Ok(v) => match v {
                Value::F64Bits(x) => Ok(x),
                _ => {
                    proof {
                        assert(false);
                    }
                    Err(Error::UnexpectedEof)
                },
            },
            Err(e) => Err(e),
        }
    }

    /// Decodes one char from its tag and UTF-8 bytes, failing on any other tag.
    pub fn deserialize_char(&mut self) -> (r: Result<char, Error>)
        requires
            old(self).wf(),
        ensures
            final(self).wf(),
            final(self)@.body == old(self)@.body,
            old(self)@.pos <= final(self)@.pos,
            old(self).rest().len() == 0 ==> (r matches Err(e) && e is UnexpectedEof),
            old(self).rest().len() >= 1 && old(self).rest()[0] != CHAR_ID ==> (r matches Err(e)
                && e == (Error::InvalidDataId {
                expected: ExpectedId::Exact(CHAR_ID),
                found: old(self).rest()[0],
            })),
            old(self).rest().len() >= 1 && old(self).rest()[0] == CHAR_ID ==> (match spec_decode_value(
                old(self).rest(),
            ) {
                Ok(p) => r matches Ok(x) && p.0 == SpecValue::Char(x) && final(self).rest()
                    == p.1,
                Err(e) => r matches Err(e2) && e2 == e,
            }),
    {
        let tag = match self.peek_u8() {
            Ok(b) => b,
            Err(e) => {
                return Err(e);
            },
        };
        if tag != CHAR_ID {
            let _ = self.take_u8();
            return Err(Error::InvalidDataId { expected: ExpectedId::Exact(CHAR_ID), found: tag });
        }
        match self.deserialize_any() {
            Ok(v) => match v {
                Value::Char(x) => Ok(x),
                _ => {
                    proof {
                        assert(false);
                    }
                    Err(Error::UnexpectedEof)
                },
            },
            Err(e) => Err(e),
        }
    }

    /// Decodes one string, returned as its validated UTF-8 bytes, failing on any other tag.
    pub fn deserialize_str(&mut self) -> (r: Result<Vec<u8>, Error>)
        requires
            old(self).wf(),
        ensures
            final(self).wf(),
            final(self)@.body == old(self)@.body,
            old(self)@.pos <= final(self)@.pos,
            old(self).rest().len() == 0 ==> (r matches Err(e) && e is UnexpectedEof),
            old(self).rest().len() >= 1 && old(self).rest()[0] != STR_ID ==> (r matches Err(e)
                && e == (Error::InvalidDataId {
                expected: ExpectedId::Exact(STR_ID),
                found: old(self).rest()[0],
            })),
            old(self).rest().len() >= 1 && old(self).rest()[0] == STR_ID ==> (match spec_decode_value(
                old(self).rest(),
            ) {
                Ok(p) => r matches Ok(x) && p.0 == SpecValue::Str(x@) && final(self).rest()
                    == p.1,
                Err(e) => r matches Err(e2) && e2 == e,
            }),
    {
        let tag = match self.peek_u8() {
            Ok(b) => b,
            Err(e) => {
                return Err(e);
            },
        };
        if tag != STR_ID {
            let _ = self.take_u8();
            return Err(Error::InvalidDataId { expected: ExpectedId::Exact(STR_ID), found: tag });
        }
        match self.deserialize_any() {
            Ok(v) => match v {
                Value::Str(x) => Ok(x),
                _ => {
                    proof {
                        assert(false);
                    }
                    Err(Error::UnexpectedEof)
                },
            },
            Err(e) => Err(e),
        }
    }

    /// Decodes one string, returned as its validated UTF-8 bytes, failing on any other tag.
    pub fn deserialize_string(&mut self) -> (r: Result<Vec<u8>, Error>)
        requires
            old(self).wf(),
        ensures
            final(self).wf(),
            final(self)@.body == old(self)@.body,
            old(self)@.pos <= final(self)@.pos,
            old(self).rest().len() == 0 ==> (r matches Err(e) && e is UnexpectedEof),
            old(self).rest().len() >= 1 && old(self).rest()[0] != STR_ID ==> (r matches Err(e)
                && e == (Error::InvalidDataId {
                expected: ExpectedId::Exact(STR_ID),
                found: old(self).rest()[0],
            })),
            old(self).rest().len() >= 1 && old(self).rest()[0] == STR_ID ==> (match spec_decode_value(
                old(self).rest(),
            ) {
                Ok(p) => r matches Ok(x) && p.0 == SpecValue::Str(x@) && final(self).rest()
                    == p.1,
                Err(e) => r matches Err(e2) && e2 == e,
            }),
    {
        let tag = match self.peek_u8() {
            Ok(b) => b,
            Err(e) => {
                return Err(e);
            },
        };
        if tag != STR_ID {
            let _ = self.take_u8();
            return Err(Error::InvalidDataId { expected: ExpectedId::Exact(STR_ID), found: tag });
        }
        match self.deserialize_any() {
            Ok(v) => match v {
                Value::Str(x) => Ok(x),
                _ => {
                    proof {
                        assert(false);
                    }
                    Err(Error::UnexpectedEof)
                },
            },
            Err(e) => Err(e),
        }
    }

    /// Decodes one byte string, failing on any other tag.
    pub fn deserialize_bytes(&mut self) -> (r: Result<Vec<u8>, Error>)
        requires
            old(self).wf(),
        ensures
            final(self).wf(),
            final(self)@.body == old(self)@.body,
            old(self)@.pos <= final(self)@.pos,
            old(self).rest().len() == 0 ==> (r matches Err(e) && e is UnexpectedEof),
            old(self).rest().len() >= 1 && old(self).rest()[0] != BYTES_ID ==> (r matches Err(e)
                && e == (Error::InvalidDataId {
                expected: ExpectedId::Exact(BYTES_ID),
                found: old(self).rest()[0],
            })),
            old(self).rest().len() >= 1 && old(self).rest()[0] == BYTES_ID ==> (match spec_decode_value(
                old(self).rest(),
            ) {
                Ok(p) => r matches Ok(x) && p.0 == SpecValue::Bytes(x@) && final(self).rest()
                    == p.1,
                Err(e) => r matches Err(e2) && e2 == e,
            }),
    {
        let tag = match self.peek_u8() {
            Ok(b) => b,
            Err(e) => {
                return Err(e);
            },
        };
        if tag != BYTES_ID {
            let _ = self.take_u8();
            return Err(Error::InvalidDataId { expected: ExpectedId::Exact(BYTES_ID), found: tag });
        }
        match self.deserialize_any() {
            Ok(v) => match v {
                Value::Bytes(x) => Ok(x),
                _ => {
                    proof {
                        assert(false);
                    }
                    Err(Error::UnexpectedEof)
                },
            },
            Err(e) => Err(e),
        }
    }

    /// Decodes one byte string, as an owned buffer, failing on any other tag.
    pub fn deserialize_byte_buf(&mut self) -> (r: Result<Vec<u8>, Error>)
        requires
            old(self).wf(),
        ensures
            final(self).wf(),
            final(self)@.body == old(self)@.body,
            old(self)@.pos <= final(self)@.pos,
            old(self).rest().len() == 0 ==> (r matches Err(e) && e is UnexpectedEof),
            old(self).rest().len() >= 1 && old(self).rest()[0] != BYTES_ID ==> (r matches Err(e)
                && e == (Error::InvalidDataId {
                expected: ExpectedId::Exact(BYTES_ID),
                found: old(self).rest()[0],
            })),
            old(self).rest().len() >= 1 && old(self).rest()[0] == BYTES_ID ==> (match spec_decode_value(
                old(self).rest(),
            ) {
                Ok(p) => r matches Ok(x) && p.0 == SpecValue::Bytes(x@) && final(self).rest()
                    == p.1,
                Err(e) => r matches Err(e2) && e2 == e,
            }),
    {
        let tag = match self.peek_u8() {
            Ok(b) => b,
            Err(e) => {
                return Err(e);
            },
        };
        if tag != BYTES_ID {
            let _ = self.take_u8();
            return Err(Error::InvalidDataId { expected: ExpectedId::Exact(BYTES_ID), found: tag });
        }
        match self.deserialize_any() {
            Ok(v) => match v {
                Value::Bytes(x) => Ok(x),
                _ => {
                    proof {
                        assert(false);
                    }
                    Err(Error::UnexpectedEof)
                },
            },
            Err(e) => Err(e),
        }
    }

}

impl Deserializer {
    /// Decodes an optional value: the null tag alone means absence and is
    /// consumed; any other tag starts a present value, decoded whole.  The
    /// tag is only peeked on the present path, since the value's own
    /// decode re-reads it.
    pub fn deserialize_option(&mut self) -> (r: Result<Option<Value>, Error>)
        requires
            old(self).wf(),
        ensures
            final(self).wf(),
            final(self)@.body == old(self)@.body,
            old(self)@.pos <= final(self)@.pos,
            old(self).rest().len() == 0 ==> (r matches Err(e) && e is UnexpectedEof),
            old(self).rest().len() >= 1 && old(self).rest()[0] == NULL_ID ==> (r matches Ok(o)
                && o is None && final(self)@.pos == old(self)@.pos + 1),
            old(self).rest().len() >= 1 && old(self).rest()[0] != NULL_ID ==> (
            match spec_decode_value(old(self).rest()) {
                Ok(p) => r matches Ok(o) && o matches Some(v) && v@ == p.0 && final(self).rest()
                    == p.1,
                Err(e) => r matches Err(e2) && e2 == e,
            }),
    {
        let tag = match self.peek_u8() {
            Ok(b) => b,
            Err(e) => {
                return Err(e);
            },
        };
        if tag == NULL_ID {
            let _ = self.take_u8();
            return Ok(Option::None);
        }
        match self.deserialize_any() {
            Ok(v) => Ok(Option::Some(v)),
            Err(e) => Err(e),
        }
    }

    /// Decodes the unit value: exactly the null tag.
    pub fn deserialize_unit(&mut self) -> (r: Result<(), Error>)
        requires
            old(self).wf(),
        ensures
            final(self).wf(),
            final(self)@.body == old(self)@.body,
            old(self)@.pos <= final(self)@.pos,
            old(self).rest().len() == 0 ==> (r matches Err(e) && e is UnexpectedEof),
            old(self).rest().len() >= 1 && old(self).rest()[0] == NULL_ID ==> (r is Ok && final(self)@.pos == old(self)@.pos + 1),
            old(self).rest().len() >= 1 && old(self).rest()[0] != NULL_ID ==> (r matches Err(e)
                && e == (Error::InvalidDataId {
                expected: ExpectedId::Exact(NULL_ID),
                found: old(self).rest()[0],
            })),
    {
        self.read_id(NULL_ID)
    }

    /// Decodes a zero-field unit struct: wire-identical to the unit value.
    pub fn deserialize_unit_struct(&mut self, _name: &str) -> (r: Result<(), Error>)
        requires
            old(self).wf(),
        ensures
            final(self).wf(),
            final(self)@.body == old(self)@.body,
            old(self)@.pos <= final(self)@.pos,
            old(self).rest().len() == 0 ==> (r matches Err(e) && e is UnexpectedEof),
            old(self).rest().len() >= 1 && old(self).rest()[0] == NULL_ID ==> (r is Ok && final(self)@.pos == old(self)@.pos + 1),
            old(self).rest().len() >= 1 && old(self).rest()[0] != NULL_ID ==> (r matches Err(e)
                && e == (Error::InvalidDataId {
                expected: ExpectedId::Exact(NULL_ID),
                found: old(self).rest()[0],
            })),
    {
        self.read_id(NULL_ID)
    }

    /// Decodes a newtype struct: the inner value's own encoding.
    pub fn deserialize_newtype_struct(&mut self, _name: &str) -> (r: Result<Value, Error>)
        requires
            old(self).wf(),
        ensures
            final(self).wf(),
            final(self)@.body == old(self)@.body,
            old(self)@.pos <= final(self)@.pos,
            spec_decode_value(old(self).rest()) matches Ok(p) ==> (r matches Ok(v) && v@ == p.0
                && final(self).rest() == p.1),
            spec_decode_value(old(self).rest()) matches Err(e) ==> (r matches Err(e2) && e2 == e),
    {
        self.deserialize_any()
    }

    /// Skips one value of any shape, discarding nested composites without
    /// materializing them for the caller.
    pub fn deserialize_ignored_any(&mut self) -> (r: Result<(), Error>)
        requires
            old(self).wf(),
        ensures
            final(self).wf(),
            final(self)@.body == old(self)@.body,
            old(self)@.pos <= final(self)@.pos,
            spec_decode_value(old(self).rest()) matches Ok(p) ==> (r is Ok && final(self).rest()
                == p.1),
            spec_decode_value(old(self).rest()) matches Err(e) ==> (r matches Err(e2) && e2 == e),
    {
        match self.deserialize_any() {
            Ok(_v) => Ok(()),
            Err(e) => Err(e),
        }
    }

    /// Decodes a whole sequence into a vector.
    pub fn deserialize_seq(&mut self) -> (r: Result<Vec<Value>, Error>)
        requires
            old(self).wf(),
        ensures
            final(self).wf(),
            final(self)@.body == old(self)@.body,
            old(self)@.pos <= final(self)@.pos,
            old(self).rest().len() == 0 ==> (r matches Err(e) && e is UnexpectedEof),
            old(self).rest().len() >= 1 && old(self).rest()[0] != SEQ_ID ==> (r matches Err(e)
                && e == (Error::InvalidDataId {
                expected: ExpectedId::Exact(SEQ_ID),
                found: old(self).rest()[0],
            })),
            old(self).rest().len() >= 1 && old(self).rest()[0] == SEQ_ID ==> (
            match spec_decode_value(old(self).rest()) {
                Ok(p) => r matches Ok(vs) && p.0 == SpecValue::Sequence(view_list(vs@)) && final(self).rest() == p.1,
                Err(e) => r matches Err(e2) && e2 == e,
            }),
    {
        let tag = match self.peek_u8() {
            Ok(b) => b,
            Err(e) => {
                return Err(e);
            },
        };
        if tag != SEQ_ID {
            let _ = self.take_u8();
            return Err(Error::InvalidDataId { expected: ExpectedId::Exact(SEQ_ID), found: tag });
        }
        match self.deserialize_any() {
            Ok(v) => match v {
                Value::Sequence(elems) => Ok(elems),
                _ => {
                    proof {
                        assert(false);
                    }
                    Err(Error::UnexpectedEof)
                },
            },
            Err(e) => Err(e),
        }
    }

    /// Decodes a tuple whose arity the caller declares; a stream whose
    /// encoded count differs is rejected with a length mismatch, never
    /// coerced.
    pub fn deserialize_tuple(&mut self, len: usize) -> (r: Result<Vec<Value>, Error>)
        requires
            old(self).wf(),
        ensures
            final(self).wf(),
            final(self)@.body == old(self)@.body,
            old(self)@.pos <= final(self)@.pos,
            old(self).rest().len() == 0 ==> (r matches Err(e) && e is UnexpectedEof),
            old(self).rest().len() >= 1 && old(self).rest()[0] != TUPLE_ID ==> (r matches Err(e)
                && e == (Error::InvalidDataId {
                expected: ExpectedId::Exact(TUPLE_ID),
                found: old(self).rest()[0],
            })),
            old(self).rest().len() >= 1 && old(self).rest()[0] == TUPLE_ID && old(self).rest().len() < 5 ==> (r matches Err(e) && e is UnexpectedEof),
            old(self).rest().len() >= 5 && old(self).rest()[0] == TUPLE_ID ==> ({
                let n = spec_u32_from_be(
                    old(self).rest()[1],
                    old(self).rest()[2],
                    old(self).rest()[3],
                    old(self).rest()[4],
                );
                &&& n as usize != len ==> (r matches Err(e) && e == (Error::InvalidLength {
                    expected: len,
                    actual: n as usize,
                }))
                &&& n as usize == len ==> match spec_decode_list(
                    old(self).rest().subrange(5, old(self).rest().len() as int),
                    n as nat,
                ) {
                    Ok(p) => r matches Ok(vs) && view_list(vs@) == p.0 && final(self).rest()
                        == p.1,
                    Err(e) => r matches Err(e2) && e2 == e,
                }
            }),
    {
        let ghost s = old(self).rest();
        match self.read_id(TUPLE_ID) {
            Ok(()) => {},
            Err(e) => {
                return Err(e);
            },
        }
        let n = match self.take_u32() {
            Ok(x) => x,
            Err(e) => {
                return Err(e);
            },
        };
        proof {
            assert(self.rest() =~= s.subrange(5, s.len() as int));
        }
        if n as usize != len {
            return Err(Error::InvalidLength { expected: len, actual: n as usize });
        }
        self.decode_list(n)
    }

    /// Decodes a tuple struct of a declared arity, with the same strict
    /// length check as a tuple.
    pub fn deserialize_tuple_struct(&mut self, _name: &str, len: usize) -> (r: Result<
        Vec<Value>,
        Error,
    >)
        requires
            old(self).wf(),
        ensures
            final(self).wf(),
            final(self)@.body == old(self)@.body,
            old(self)@.pos <= final(self)@.pos,
            old(self).rest().len() == 0 ==> (r matches Err(e) && e is UnexpectedEof),
            old(self).rest().len() >= 1 && old(self).rest()[0] != TUPLE_STRUCT_ID ==> (
            r matches Err(e) && e == (Error::InvalidDataId {
                expected: ExpectedId::Exact(TUPLE_STRUCT_ID),
                found: old(self).rest()[0],
            })),
            old(self).rest().len() >= 1 && old(self).rest()[0] == TUPLE_STRUCT_ID && old(self).rest().len() < 5 ==> (r matches Err(e) && e is UnexpectedEof),
            old(self).rest().len() >= 5 && old(self).rest()[0] == TUPLE_STRUCT_ID ==> ({
                let n = spec_u32_from_be(
                    old(self).rest()[1],
                    old(self).rest()[2],
                    old(self).rest()[3],
                    old(self).rest()[4],
                );
                &&& n as usize != len ==> (r matches Err(e) && e == (Error::InvalidLength {
                    expected: len,
                    actual: n as usize,
                }))
                &&& n as usize == len ==> match spec_decode_list(
                    old(self).rest().subrange(5, old(self).rest().len() as int),
                    n as nat,
                ) {
                    Ok(p) => r matches Ok(vs) && view_list(vs@) == p.0 && final(self).rest()
                        == p.1,
                    Err(e) => r matches Err(e2) && e2 == e,
                }
            }),
    {
        let ghost s = old(self).rest();
        match self.read_id(TUPLE_STRUCT_ID) {
            Ok(()) => {},
            Err(e) => {
                return Err(e);
            },
        }
        let n = match self.take_u32() {
            Ok(x) => x,
            Err(e) => {
                return Err(e);
            },
        };
        proof {
            assert(self.rest() =~= s.subrange(5, s.len() as int));
        }
        if n as usize != len {
            return Err(Error::InvalidLength { expected: len, actual: n as usize });
        }
        self.decode_list(n)
    }

    /// Opens a map: consumes the map tag and pair count and hands back the
    /// strictly alternating step protocol for its entries.
    pub fn deserialize_map(&mut self) -> (r: Result<MapAccess, Error>)
        requires
            old(self).wf(),
        ensures
            final(self).wf(),
            final(self)@.body == old(self)@.body,
            old(self)@.pos <= final(self)@.pos,
            old(self).rest().len() == 0 ==> (r matches Err(e) && e is UnexpectedEof),
            old(self).rest().len() >= 1 && old(self).rest()[0] != MAP_ID ==> (r matches Err(e)
                && e == (Error::InvalidDataId {
                expected: ExpectedId::Exact(MAP_ID),
                found: old(self).rest()[0],
            })),
            old(self).rest().len() >= 1 && old(self).rest()[0] == MAP_ID && old(self).rest().len()
                < 5 ==> (r matches Err(e) && e is UnexpectedEof),
            old(self).rest().len() >= 5 && old(self).rest()[0] == MAP_ID ==> (r matches Ok(m)
                && m.wf_access() && m@.len == spec_u32_from_be(
                old(self).rest()[1],
                old(self).rest()[2],
                old(self).rest()[3],
                old(self).rest()[4],
            ) && m@.keys == 0 && m@.values == 0 && final(self)@.pos == old(self)@.pos + 5),
    {
        match self.read_id(MAP_ID) {
            Ok(()) => {},
            Err(e) => {
                return Err(e);
            },
        }
        let n = match self.take_u32() {
            Ok(x) => x,
            Err(e) => {
                return Err(e);
            },
        };
        Ok(MapAccess { len: n, current_key: 0, current_value: 0 })
    }

    /// Opens a struct: on the wire a struct is a string-keyed map, so this
    /// reads the map tag and count and hands back the same step protocol.
    pub fn deserialize_struct(&mut self, _name: &str) -> (r: Result<MapAccess, Error>)
        requires
            old(self).wf(),
        ensures
            final(self).wf(),
            final(self)@.body == old(self)@.body,
            old(self)@.pos <= final(self)@.pos,
            old(self).rest().len() == 0 ==> (r matches Err(e) && e is UnexpectedEof),
            old(self).rest().len() >= 1 && old(self).rest()[0] != MAP_ID ==> (r matches Err(e)
                && e == (Error::InvalidDataId {
                expected: ExpectedId::Exact(MAP_ID),
                found: old(self).rest()[0],
            })),
            old(self).rest().len() >= 1 && old(self).rest()[0] == MAP_ID && old(self).rest().len()
                < 5 ==> (r matches Err(e) && e is UnexpectedEof),
            old(self).rest().len() >= 5 && old(self).rest()[0] == MAP_ID ==> (r matches Ok(m)
                && m.wf_access() && m@.len == spec_u32_from_be(
                old(self).rest()[1],
                old(self).rest()[2],
                old(self).rest()[3],
                old(self).rest()[4],
            ) && m@.keys == 0 && m@.values == 0 && final(self)@.pos == old(self)@.pos + 5),
    {
        self.deserialize_map()
    }

    /// Opens a sequence for element-by-element reading: consumes the
    /// sequence tag and hands back the declared element count.
    pub fn begin_seq(&mut self) -> (r: Result<u32, Error>)
        requires
            old(self).wf(),
        ensures
            final(self).wf(),
            final(self)@.body == old(self)@.body,
            old(self)@.pos <= final(self)@.pos,
            old(self).rest().len() == 0 ==> (r matches Err(e) && e is UnexpectedEof),
            old(self).rest().len() >= 1 && old(self).rest()[0] != SEQ_ID ==> (r matches Err(e)
                && e == (Error::InvalidDataId {
                expected: ExpectedId::Exact(SEQ_ID),
                found: old(self).rest()[0],
            })),
            old(self).rest().len() >= 1 && old(self).rest()[0] == SEQ_ID && old(self).rest().len()
                < 5 ==> (r matches Err(e) && e is UnexpectedEof),
            old(self).rest().len() >= 5 && old(self).rest()[0] == SEQ_ID ==> (r matches Ok(n)
                && n == spec_u32_from_be(
                old(self).rest()[1],
                old(self).rest()[2],
                old(self).rest()[3],
                old(self).rest()[4],
            ) && final(self)@.pos == old(self)@.pos + 5),
    {
        match self.read_id(SEQ_ID) {
            Ok(()) => {},
            Err(e) => {
                return Err(e);
            },
        }
        self.take_u32()
    }

    /// Opens a tuple of a declared arity for element-by-element reading:
    /// consumes the tag and count, rejecting a count that differs from
    /// the declared arity.
    pub fn begin_tuple(&mut self, len: usize) -> (r: Result<u32, Error>)
        requires
            old(self).wf(),
        ensures
            final(self).wf(),
            final(self)@.body == old(self)@.body,
            old(self)@.pos <= final(self)@.pos,
            old(self).rest().len() == 0 ==> (r matches Err(e) && e is UnexpectedEof),
            old(self).rest().len() >= 1 && old(self).rest()[0] != TUPLE_ID ==> (r matches Err(e)
                && e == (Error::InvalidDataId {
                expected: ExpectedId::Exact(TUPLE_ID),
                found: old(self).rest()[0],
            })),
            old(self).rest().len() >= 1 && old(self).rest()[0] == TUPLE_ID && old(self).rest().len() < 5 ==> (r matches Err(e) && e is UnexpectedEof),
            old(self).rest().len() >= 5 && old(self).rest()[0] == TUPLE_ID ==> ({
                let n = spec_u32_from_be(
                    old(self).rest()[1],
                    old(self).rest()[2],
                    old(self).rest()[3],
                    old(self).rest()[4],
                );
                &&& n as usize != len ==> (r matches Err(e) && e == (Error::InvalidLength {
                    expected: len,
                    actual: n as usize,
                }))
                &&& n as usize == len ==> (r matches Ok(n2) && n2 == n && final(self)@.pos == old(self)@.pos + 5)
            }),
    {
        match self.read_id(TUPLE_ID) {
            Ok(()) => {},
            Err(e) => {
                return Err(e);
            },
        }
        let n = match self.take_u32() {
            Ok(x) => x,
            Err(e) => {
                return Err(e);
            },
        };
        if n as usize != len {
            return Err(Error::InvalidLength { expected: len, actual: n as usize });
        }
        Ok(n)
    }

    /// Opens a tuple struct of a declared arity for element-by-element
    /// reading, with the same strict count check as a tuple.
    pub fn begin_tuple_struct(&mut self, _name: &str, len: usize) -> (r: Result<u32, Error>)
        requires
            old(self).wf(),
        ensures
            final(self).wf(),
            final(self)@.body == old(self)@.body,
            old(self)@.pos <= final(self)@.pos,
            old(self).rest().len() == 0 ==> (r matches Err(e) && e is UnexpectedEof),
            old(self).rest().len() >= 1 && old(self).rest()[0] != TUPLE_STRUCT_ID ==> (
            r matches Err(e) && e == (Error::InvalidDataId {
                expected: ExpectedId::Exact(TUPLE_STRUCT_ID),
                found: old(self).rest()[0],
            })),
            old(self).rest().len() >= 1 && old(self).rest()[0] == TUPLE_STRUCT_ID && old(self).rest().len() < 5 ==> (r matches Err(e) && e is UnexpectedEof),
            old(self).rest().len() >= 5 && old(self).rest()[0] == TUPLE_STRUCT_ID ==> ({
                let n = spec_u32_from_be(
                    old(self).rest()[1],
                    old(self).rest()[2],
                    old(self).rest()[3],
                    old(self).rest()[4],
                );
                &&& n as usize != len ==> (r matches Err(e) && e == (Error::InvalidLength {
                    expected: len,
                    actual: n as usize,
                }))
                &&& n as usize == len ==> (r matches Ok(n2) && n2 == n && final(self)@.pos == old(self)@.pos + 5)
            }),
    {
        match self.read_id(TUPLE_STRUCT_ID) {
            Ok(()) => {},
            Err(e) => {
                return Err(e);
            },
        }
        let n = match self.take_u32() {
            Ok(x) => x,
            Err(e) => {
                return Err(e);
            },
        };
        if n as usize != len {
            return Err(Error::InvalidLength { expected: len, actual: n as usize });
        }
        Ok(n)
    }

    /// Opens an enum value: consumes the variant tag and numeric index and
    /// hands back an access that resolves the variant's declared shape.
    /// The four variant tags are told apart here; asking the access for a
    /// different shape than the tag announced is a variant-shape misuse.
    pub fn deserialize_enum(&mut self) -> (r: Result<EnumAccess, Error>)
        requires
            old(self).wf(),
        ensures
            final(self).wf(),
            final(self)@.body == old(self)@.body,
            old(self)@.pos <= final(self)@.pos,
            old(self).rest().len() == 0 ==> (r matches Err(e) && e is UnexpectedEof),
            old(self).rest().len() >= 1 && !(old(self).rest()[0] == UNIT_VARIANT_ID || old(self).rest()[0] == NEWTYPE_VARIANT_ID || old(self).rest()[0] == TUPLE_VARIANT_ID || old(self).rest()[0] == STRUCT_VARIANT_ID) ==> (r matches Err(e) && e == (Error::InvalidDataId {
                expected: ExpectedId::AnyVariant,
                found: old(self).rest()[0],
            })),
            old(self).rest().len() >= 1 && (old(self).rest()[0] == UNIT_VARIANT_ID || old(self).rest()[0] == NEWTYPE_VARIANT_ID || old(self).rest()[0] == TUPLE_VARIANT_ID || old(self).rest()[0] == STRUCT_VARIANT_ID) && old(self).rest().len() < 5 ==> (r matches Err(e)
                && e is UnexpectedEof),
            old(self).rest().len() >= 5 && (old(self).rest()[0] == UNIT_VARIANT_ID || old(self).rest()[0] == NEWTYPE_VARIANT_ID || old(self).rest()[0] == TUPLE_VARIANT_ID || old(self).rest()[0] == STRUCT_VARIANT_ID) ==> (r matches Ok(ea) && ea.tag == old(self).rest()[0] && ea.variant_index == spec_u32_from_be(
                old(self).rest()[1],
                old(self).rest()[2],
                old(self).rest()[3],
                old(self).rest()[4],
            ) && final(self)@.pos == old(self)@.pos + 5),
    {
        let tag = match self.peek_u8() {
            Ok(b) => b,
            Err(e) => {
                return Err(e);
            },
        };
        if !(tag == UNIT_VARIANT_ID || tag == NEWTYPE_VARIANT_ID || tag == TUPLE_VARIANT_ID || tag
            == STRUCT_VARIANT_ID) {
            return Err(Error::InvalidDataId { expected: ExpectedId::AnyVariant, found: tag });
        }
        let _ = self.take_u8();
        let variant_index = match self.take_u32() {
            Ok(x) => x,
            Err(e) => {
                return Err(e);
            },
        };
        Ok(EnumAccess { variant_index, tag })
    }
}

/// The step protocol for one open sequence or tuple: one element per call,
/// until the declared count is exhausted.
pub struct SeqAccess {
    len: u32,
    current: u32,
}

/// The model of a [`SeqAccess`]: the declared count and how many elements
/// were read.
pub ghost struct SeqAccessView {
    pub len: int,
    pub read: int,
}

impl View for SeqAccess {
    type V = SeqAccessView;

    closed spec fn view(&self) -> SeqAccessView {
        SeqAccessView { len: self.len as int, read: self.current as int }
    }
}

impl SeqAccess {
    /// No more elements were read than were declared.
    pub open spec fn wf_access(self) -> bool {
        0 <= self@.read <= self@.len
    }

    /// A fresh access for a sequence of `len` elements.
    pub fn new(len: u32) -> (r: SeqAccess)
        ensures
            r.wf_access(),
            r@.len == len,
            r@.read == 0,
    {
        SeqAccess { len, current: 0 }
    }

    /// How many elements are still to be read.
    pub fn size_hint(&self) -> (r: Option<usize>)
        requires
            self.wf_access(),
        ensures
            r matches Some(n) && n == self@.len - self@.read,
    {
        Some((self.len - self.current) as usize)
    }

    /// The step decision alone, for a caller that decodes the element
    /// itself: whether one more element is owed.
    pub fn note_element(&mut self) -> (r: bool)
        requires
            old(self).wf_access(),
        ensures
            final(self).wf_access(),
            final(self)@.len == old(self)@.len,
            old(self)@.read == old(self)@.len ==> (!r && final(self)@ == old(self)@),
            old(self)@.read < old(self)@.len ==> (r && final(self)@.read == old(self)@.read + 1),
    {
        if self.current >= self.len {
            return false;
        }
        self.current = self.current + 1;
        true
    }

    /// Decodes the next element, or reports the end of the sequence.
    pub fn next_element(&mut self, de: &mut Deserializer) -> (r: Result<Option<Value>, Error>)
        requires
            old(self).wf_access(),
            old(de).wf(),
        ensures
            final(self).wf_access(),
            final(de).wf(),
            final(de)@.body == old(de)@.body,
            old(de)@.pos <= final(de)@.pos,
            final(self)@.len == old(self)@.len,
            old(self)@.read == old(self)@.len ==> (r matches Ok(o) && o is None && final(self)@
                == old(self)@ && final(de)@ == old(de)@),
            old(self)@.read < old(self)@.len ==> ({
                &&& final(self)@.read == old(self)@.read + 1
                &&& match spec_decode_value(old(de).rest()) {
                    Ok(p) => r matches Ok(o) && o matches Some(v) && v@ == p.0 && final(de).rest()
                        == p.1,
                    Err(e) => r matches Err(e2) && e2 == e,
                }
            }),
    {
        if self.current >= self.len {
            return Ok(Option::None);
        }
        self.current = self.current + 1;
        match de.deserialize_any() {
            Ok(v) => Ok(Option::Some(v)),
            Err(e) => Err(e),
        }
    }
}

/// The strictly alternating step protocol for one open map or struct:
/// "next key" then "next value", repeated exactly as many times as the
/// declared pair count; any other order is a map-protocol violation.
pub struct MapAccess {
    len: u32,
    current_key: u32,
    current_value: u32,
}

/// The model of a [`MapAccess`]: the declared pair count and how many keys
/// and values were read.
pub ghost struct MapAccessView {
    pub len: int,
    pub keys: int,
    pub values: int,
}

impl View for MapAccess {
    type V = MapAccessView;

    closed spec fn view(&self) -> MapAccessView {
        MapAccessView {
            len: self.len as int,
            keys: self.current_key as int,
            values: self.current_value as int,
        }
    }
}

impl MapAccess {
    /// Keys and values alternate strictly, inside the declared count.
    pub open spec fn wf_access(self) -> bool {
        &&& 0 <= self@.values <= self@.keys <= self@.len
        &&& self@.keys <= self@.values + 1
    }

    /// A fresh access for a map of `len` pairs, for a caller that has
    /// already consumed a pair count (a struct variant's payload).
    pub fn new(len: u32) -> (r: MapAccess)
        ensures
            r.wf_access(),
            r@.len == len,
            r@.keys == 0,
            r@.values == 0,
    {
        MapAccess { len, current_key: 0, current_value: 0 }
    }

    /// The protocol decision of "next key" alone, for a caller that
    /// decodes the key itself: whether a key may be read now (`false`
    /// when the map is exhausted), or the protocol violation.
    pub fn note_key(&mut self) -> (r: Result<bool, Error>)
        requires
            old(self).wf_access(),
        ensures
            final(self).wf_access(),
            final(self)@.len == old(self)@.len,
            old(self)@.keys > old(self)@.values ==> (r matches Err(e) && e is InvalidMapAccess
                && final(self)@ == old(self)@),
            old(self)@.keys == old(self)@.values && old(self)@.keys == old(self)@.len ==> (
            r matches Ok(b) && !b && final(self)@ == old(self)@),
            old(self)@.keys == old(self)@.values && old(self)@.keys < old(self)@.len ==> (
            r matches Ok(b) && b && final(self)@.keys == old(self)@.keys + 1 && final(self)@.values
                == old(self)@.values),
    {
        if self.current_key > self.current_value {
            return Err(Error::InvalidMapAccess);
        }
        if self.current_key >= self.len {
            return Ok(false);
        }
        self.current_key = self.current_key + 1;
        Ok(true)
    }

    /// The protocol decision of "next value" alone, for a caller that
    /// decodes the value itself: a value may be read only while its key
    /// has been read and not yet consumed.
    pub fn note_value(&mut self) -> (r: Result<(), Error>)
        requires
            old(self).wf_access(),
        ensures
            final(self).wf_access(),
            final(self)@.len == old(self)@.len,
            old(self)@.values >= old(self)@.keys ==> (r matches Err(e) && e is InvalidMapAccess
                && final(self)@ == old(self)@),
            old(self)@.values < old(self)@.keys ==> (r is Ok && final(self)@.values == old(self)@.values + 1 && final(self)@.keys == old(self)@.keys),
    {
        if self.current_value >= self.current_key {
            return Err(Error::InvalidMapAccess);
        }
        self.current_value = self.current_value + 1;
        Ok(())
    }

    /// Decodes the next key, or reports the end of the map; reading a
    /// second key while its value is still pending is a protocol
    /// violation.
    pub fn next_key(&mut self, de: &mut Deserializer) -> (r: Result<Option<Value>, Error>)
        requires
            old(self).wf_access(),
            old(de).wf(),
        ensures
            final(self).wf_access(),
            final(de).wf(),
            final(de)@.body == old(de)@.body,
            old(de)@.pos <= final(de)@.pos,
            final(self)@.len == old(self)@.len,
            old(self)@.keys > old(self)@.values ==> (r matches Err(e) && e is InvalidMapAccess
                && final(self)@ == old(self)@ && final(de)@ == old(de)@),
            old(self)@.keys == old(self)@.values && old(self)@.keys == old(self)@.len ==> (
            r matches Ok(o) && o is None && final(self)@ == old(self)@ && final(de)@ == old(de)@),
            old(self)@.keys == old(self)@.values && old(self)@.keys < old(self)@.len ==> ({
                &&& final(self)@.keys == old(self)@.keys + 1
                &&& final(self)@.values == old(self)@.values
                &&& match spec_decode_value(old(de).rest()) {
                    Ok(p) => r matches Ok(o) && o matches Some(v) && v@ == p.0 && final(de).rest()
                        == p.1,
                    Err(e) => r matches Err(e2) && e2 == e,
                }
            }),
    {
        if self.current_key > self.current_value {
            return Err(Error::InvalidMapAccess);
        }
        if self.current_key >= self.len {
            return Ok(Option::None);
        }
        self.current_key = self.current_key + 1;
        match de.deserialize_any() {
            Ok(v) => Ok(Option::Some(v)),
            Err(e) => Err(e),
        }
    }

    /// Decodes the next value; asking for a value without a preceding
    /// unconsumed key is a protocol violation.
    pub fn next_value(&mut self, de: &mut Deserializer) -> (r: Result<Value, Error>)
        requires
            old(self).wf_access(),
            old(de).wf(),
        ensures
            final(self).wf_access(),
            final(de).wf(),
            final(de)@.body == old(de)@.body,
            old(de)@.pos <= final(de)@.pos,
            final(self)@.len == old(self)@.len,
            old(self)@.values >= old(self)@.keys ==> (r matches Err(e) && e is InvalidMapAccess
                && final(self)@ == old(self)@ && final(de)@ == old(de)@),
            old(self)@.values < old(self)@.keys ==> ({
                &&& final(self)@.values == old(self)@.values + 1
                &&& final(self)@.keys == old(self)@.keys
                &&& match spec_decode_value(old(de).rest()) {
                    Ok(p) => r matches Ok(v) && v@ == p.0 && final(de).rest() == p.1,
                    Err(e) => r matches Err(e2) && e2 == e,
                }
            }),
    {
        if self.current_value >= self.current_key {
            return Err(Error::InvalidMapAccess);
        }
        self.current_value = self.current_value + 1;
        de.deserialize_any()
    }
}

/// One enum value's head, already consumed from the stream: its numeric
/// variant index and the tag that announced its shape.  The caller asks
/// for the payload in the shape its variant table declares.
pub struct EnumAccess {
    /// The variant's numeric index as read from the stream.
    pub variant_index: u32,
    /// The tag byte that announced the variant's shape.
    pub tag: u8,
}

impl EnumAccess {
    /// Closes a unit variant: there is no payload to read.  Asking this of
    /// a data-carrying variant is a variant-shape misuse.
    pub fn unit_variant(self) -> (r: Result<(), Error>)
        ensures
            self.tag == UNIT_VARIANT_ID ==> r is Ok,
            self.tag != UNIT_VARIANT_ID ==> (r matches Err(e) && e is UnexpectedString),
    {
        if self.tag == UNIT_VARIANT_ID {
            Ok(())
        } else {
            Err(Error::UnexpectedString)
        }
    }

    /// Checks that this variant carries a newtype payload, for a caller
    /// that decodes the payload itself.
    pub fn begin_newtype_variant(self) -> (r: Result<(), Error>)
        ensures
            self.tag == NEWTYPE_VARIANT_ID <==> r is Ok,
            self.tag != NEWTYPE_VARIANT_ID ==> (r matches Err(e) && e is UnexpectedString),
    {
        if self.tag == NEWTYPE_VARIANT_ID {
            Ok(())
        } else {
            Err(Error::UnexpectedString)
        }
    }

    /// Opens a tuple variant's payload of a declared arity, consuming its
    /// count, for a caller that decodes the elements itself.
    pub fn begin_tuple_variant(self, de: &mut Deserializer, len: usize) -> (r: Result<u32, Error>)
        requires
            old(de).wf(),
        ensures
            final(de).wf(),
            final(de)@.body == old(de)@.body,
            old(de)@.pos <= final(de)@.pos,
            self.tag != TUPLE_VARIANT_ID ==> (r matches Err(e) && e is UnexpectedString && final(de)@ == old(de)@),
            self.tag == TUPLE_VARIANT_ID && old(de).rest().len() < 4 ==> (r matches Err(e)
                && e is UnexpectedEof),
            self.tag == TUPLE_VARIANT_ID && old(de).rest().len() >= 4 ==> ({
                let n = spec_u32_from_be(
                    old(de).rest()[0],
                    old(de).rest()[1],
                    old(de).rest()[2],
                    old(de).rest()[3],
                );
                &&& n as usize != len ==> (r matches Err(e) && e == (Error::InvalidLength {
                    expected: len,
                    actual: n as usize,
                }))
                &&& n as usize == len ==> (r matches Ok(n2) && n2 == n && final(de)@.pos == old(de)@.pos + 4)
            }),
    {
        if self.tag != TUPLE_VARIANT_ID {
            return Err(Error::UnexpectedString);
        }
        let n = match de.take_u32() {
            Ok(x) => x,
            Err(e) => {
                return Err(e);
            },
        };
        if n as usize != len {
            return Err(Error::InvalidLength { expected: len, actual: n as usize });
        }
        Ok(n)
    }

    /// Opens a struct variant's payload, consuming its pair count, for a
    /// caller that decodes the pairs itself through the map protocol.
    pub fn begin_struct_variant(self, de: &mut Deserializer) -> (r: Result<u32, Error>)
        requires
            old(de).wf(),
        ensures
            final(de).wf(),
            final(de)@.body == old(de)@.body,
            old(de)@.pos <= final(de)@.pos,
            self.tag != STRUCT_VARIANT_ID ==> (r matches Err(e) && e is UnexpectedString && final(de)@ == old(de)@),
            self.tag == STRUCT_VARIANT_ID && old(de).rest().len() < 4 ==> (r matches Err(e)
                && e is UnexpectedEof),
            self.tag == STRUCT_VARIANT_ID && old(de).rest().len() >= 4 ==> (r matches Ok(n)
                && n == spec_u32_from_be(
                old(de).rest()[0],
                old(de).rest()[1],
                old(de).rest()[2],
                old(de).rest()[3],
            ) && final(de)@.pos == old(de)@.pos + 4),
    {
        if self.tag != STRUCT_VARIANT_ID {
            return Err(Error::UnexpectedString);
        }
        de.take_u32()
    }

    /// Decodes the single payload value of a newtype variant.
    pub fn newtype_variant(self, de: &mut Deserializer) -> (r: Result<Value, Error>)
        requires
            old(de).wf(),
        ensures
            final(de).wf(),
            final(de)@.body == old(de)@.body,
            old(de)@.pos <= final(de)@.pos,
            self.tag != NEWTYPE_VARIANT_ID ==> (r matches Err(e) && e is UnexpectedString && final(de)@ == old(de)@),
            self.tag == NEWTYPE_VARIANT_ID ==> match spec_decode_value(old(de).rest()) {
                Ok(p) => r matches Ok(v) && v@ == p.0 && final(de).rest() == p.1,
                Err(e) => r matches Err(e2) && e2 == e,
            },
    {
        if self.tag != NEWTYPE_VARIANT_ID {
            return Err(Error::UnexpectedString);
        }
        de.deserialize_any()
    }

    /// Decodes the payload of a tuple variant of a declared arity; a
    /// stream whose encoded count differs is rejected with a length
    /// mismatch.
    pub fn tuple_variant(self, de: &mut Deserializer, len: usize) -> (r: Result<Vec<Value>, Error>)
        requires
            old(de).wf(),
        ensures
            final(de).wf(),
            final(de)@.body == old(de)@.body,
            old(de)@.pos <= final(de)@.pos,
            self.tag != TUPLE_VARIANT_ID ==> (r matches Err(e) && e is UnexpectedString && final(de)@ == old(de)@),
            self.tag == TUPLE_VARIANT_ID && old(de).rest().len() < 4 ==> (r matches Err(e)
                && e is UnexpectedEof),
            self.tag == TUPLE_VARIANT_ID && old(de).rest().len() >= 4 ==> ({
                let n = spec_u32_from_be(
                    old(de).rest()[0],
                    old(de).rest()[1],
                    old(de).rest()[2],
                    old(de).rest()[3],
                );
                &&& n as usize != len ==> (r matches Err(e) && e == (Error::InvalidLength {
                    expected: len,
                    actual: n as usize,
                }))
                &&& n as usize == len ==> match spec_decode_list(
                    old(de).rest().subrange(4, old(de).rest().len() as int),
                    n as nat,
                ) {
                    Ok(p) => r matches Ok(vs) && view_list(vs@) == p.0 && final(de).rest() == p.1,
                    Err(e) => r matches Err(e2) && e2 == e,
                }
            }),
    {
        if self.tag != TUPLE_VARIANT_ID {
            return Err(Error::UnexpectedString);
        }
        let ghost s = old(de).rest();
        let n = match de.take_u32() {
            Ok(x) => x,
            Err(e) => {
                return Err(e);
            },
        };
        proof {
            assert(de.rest() =~= s.subrange(4, s.len() as int));
        }
        if n as usize != len {
            return Err(Error::InvalidLength { expected: len, actual: n as usize });
        }
        de.decode_list(n)
    }

    /// Decodes the payload of a struct variant: its count, then its
    /// key/value pairs.
    pub fn struct_variant(self, de: &mut Deserializer) -> (r: Result<Vec<(Value, Value)>, Error>)
        requires
            old(de).wf(),
        ensures
            final(de).wf(),
            final(de)@.body == old(de)@.body,
            old(de)@.pos <= final(de)@.pos,
            self.tag != STRUCT_VARIANT_ID ==> (r matches Err(e) && e is UnexpectedString && final(de)@ == old(de)@),
            self.tag == STRUCT_VARIANT_ID && old(de).rest().len() < 4 ==> (r matches Err(e)
                && e is UnexpectedEof),
            self.tag == STRUCT_VARIANT_ID && old(de).rest().len() >= 4 ==> ({
                let n = spec_u32_from_be(
                    old(de).rest()[0],
                    old(de).rest()[1],
                    old(de).rest()[2],
                    old(de).rest()[3],
                );
                match spec_decode_pairs(
                    old(de).rest().subrange(4, old(de).rest().len() as int),
                    n as nat,
                ) {
                    Ok(p) => r matches Ok(vs) && view_pairs(vs@) == p.0 && final(de).rest()
                        == p.1,
                    Err(e) => r matches Err(e2) && e2 == e,
                }
            }),
    {
        if self.tag != STRUCT_VARIANT_ID {
            return Err(Error::UnexpectedString);
        }
        let ghost s = old(de).rest();
        let n = match de.take_u32() {
            Ok(x) => x,
            Err(e) => {
                return Err(e);
            },
        };
        proof {
            assert(de.rest() =~= s.subrange(4, s.len() as int));
        }
        de.decode_pairs(n)
    }
}

} // verus!
