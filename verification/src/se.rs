//! Encoding: a visitor-style [`Serializer`] that appends tagged bytes for
//! one value node at a time, a recursive whole-value encoder, and the
//! entry point that frames the result with the header and the compression
//! transport.

use vstd::prelude::*;
use vstd::string::StrSliceExecFns;
use vstd::string::StringSliceAdditionalSpecFns;
use crate::data_ids::{
    NULL_ID, BOOL_ID, I8_ID, I16_ID, I32_ID, I64_ID, U8_ID, U16_ID, U32_ID, U64_ID, F32_ID,
    F64_ID, CHAR_ID, STR_ID, BYTES_ID, SEQ_ID, TUPLE_ID, UNIT_VARIANT_ID, NEWTYPE_VARIANT_ID,
    TUPLE_VARIANT_ID, STRUCT_VARIANT_ID, TUPLE_STRUCT_ID, MAP_ID,
};
use crate::value::{
    Value, SpecValue, wf_value, wf_list, wf_pairs, value_bytes, list_bytes, pairs_bytes,
    view_list, view_pairs, lemma_view_list_len, lemma_view_list_index, lemma_view_pairs_len,
    lemma_view_pairs_index, lemma_wf_list_index, lemma_wf_pairs_index, lemma_list_bytes_take_succ,
    lemma_pairs_bytes_take_succ,
};
use crate::wire;
use crate::compress;
use crate::{Compression, Error, FileHeader, HeaderView, magic_bytes, spec_header_bytes};

verus! {

broadcast use lemma_view_list_len, lemma_view_list_index, lemma_view_pairs_len,
    lemma_view_pairs_index;

/// Appends one value's complete canonical encoding to the output.
pub fn encode_value(out: &mut Vec<u8>, v: &Value)
    requires
        wf_value(v@),
    ensures
        final(out)@ == old(out)@ + value_bytes(v@),
    decreases v,
{
    match v {
        Value::Null => {
            wire::write_u8(out, NULL_ID);
            assert(out@ =~= old(out)@ + value_bytes(v@));
        },
        Value::Bool(b) => {
            wire::write_u8(out, BOOL_ID);
            wire::write_u8(out, if *b { 1 } else { 0 });
            assert(out@ =~= old(out)@ + value_bytes(v@));
        },
        Value::I8(x) => {
            wire::write_u8(out, I8_ID);
            wire::write_u8(out, *x as u8);
            assert(out@ =~= old(out)@ + value_bytes(v@));
        },
        Value::I16(x) => {
            wire::write_u8(out, I16_ID);
            wire::write_u16_be(out, *x as u16);
            assert(out@ =~= old(out)@ + value_bytes(v@));
        },
        Value::I32(x) => {
            wire::write_u8(out, I32_ID);
            wire::write_u32_be(out, *x as u32);
            assert(out@ =~= old(out)@ + value_bytes(v@));
        },
        Value::I64(x) => {
            wire::write_u8(out, I64_ID);
            wire::write_u64_be(out, *x as u64);
            assert(out@ =~= old(out)@ + value_bytes(v@));
        },
        Value::U8(x) => {
            wire::write_u8(out, U8_ID);
            wire::write_u8(out, *x);
            assert(out@ =~= old(out)@ + value_bytes(v@));
        },
        Value::U16(x) => {
            wire::write_u8(out, U16_ID);
            wire::write_u16_be(out, *x);
            assert(out@ =~= old(out)@ + value_bytes(v@));
        },
        Value::U32(x) => {
            wire::write_u8(out, U32_ID);
            wire::write_u32_be(out, *x);
            assert(out@ =~= old(out)@ + value_bytes(v@));
        },
        Value::U64(x) => {
            wire::write_u8(out, U64_ID);
            wire::write_u64_be(out, *x);
            assert(out@ =~= old(out)@ + value_bytes(v@));
        },
        Value::F32Bits(x) => {
            wire::write_u8(out, F32_ID);
            wire::write_u32_be(out, *x);
            assert(out@ =~= old(out)@ + value_bytes(v@));
        },
        Value::F64Bits(x) => {
            wire::write_u8(out, F64_ID);
            wire::write_u64_be(out, *x);
            assert(out@ =~= old(out)@ + value_bytes(v@));
        },
        Value::Char(c) => {
            wire::write_u8(out, CHAR_ID);
            crate::text::push_char_utf8(out, *c);
            assert(out@ =~= old(out)@ + value_bytes(v@));
        },
        Value::Str(b) => {
            wire::write_u8(out, STR_ID);
            wire::write_u32_be(out, b.len() as u32);
            wire::append_bytes(out, b);
            assert(out@ =~= old(out)@ + value_bytes(v@));
        },
        Value::Bytes(b) => {
            wire::write_u8(out, BYTES_ID);
            wire::write_u32_be(out, b.len() as u32);
            wire::append_bytes(out, b);
            assert(out@ =~= old(out)@ + value_bytes(v@));
        },
        Value::Sequence(elems) => {
            wire::write_u8(out, SEQ_ID);
            wire::write_u32_be(out, elems.len() as u32);
            encode_list(out, elems);
            assert(out@ =~= old(out)@ + value_bytes(v@));
        },
        Value::Tuple(elems) => {
            wire::write_u8(out, TUPLE_ID);
            wire::write_u32_be(out, elems.len() as u32);
            encode_list(out, elems);
            assert(out@ =~= old(out)@ + value_bytes(v@));
        },
        Value::TupleStruct(elems) => {
            wire::write_u8(out, TUPLE_STRUCT_ID);
            wire::write_u32_be(out, elems.len() as u32);
            encode_list(out, elems);
            assert(out@ =~= old(out)@ + value_bytes(v@));
        },
        Value::Mapping(pairs) => {
            wire::write_u8(out, MAP_ID);
            wire::write_u32_be(out, pairs.len() as u32);
            encode_pairs(out, pairs);
            assert(out@ =~= old(out)@ + value_bytes(v@));
        },
        Value::UnitVariant(i) => {
            wire::write_u8(out, UNIT_VARIANT_ID);
            wire::write_u32_be(out, *i);
            assert(out@ =~= old(out)@ + value_bytes(v@));
        },
        Value::NewtypeVariant(i, inner) => {
            wire::write_u8(out, NEWTYPE_VARIANT_ID);
            wire::write_u32_be(out, *i);
            encode_value(out, inner);
            assert(out@ =~= old(out)@ + value_bytes(v@));
        },
        Value::TupleVariant(i, elems) => {
            wire::write_u8(out, TUPLE_VARIANT_ID);
            wire::write_u32_be(out, *i);
            wire::write_u32_be(out, elems.len() as u32);
            encode_list(out, elems);
            assert(out@ =~= old(out)@ + value_bytes(v@));
        },
        Value::StructVariant(i, pairs) => {
            wire::write_u8(out, STRUCT_VARIANT_ID);
            wire::write_u32_be(out, *i);
            wire::write_u32_be(out, pairs.len() as u32);
            encode_pairs(out, pairs);
            assert(out@ =~= old(out)@ + value_bytes(v@));
        },
    }
}

/// Appends the encodings of a list of elements, in order.
fn encode_list(out: &mut Vec<u8>, elems: &Vec<Value>)
    requires
        wf_list(view_list(elems@)),
    ensures
        final(out)@ == old(out)@ + list_bytes(view_list(elems@)),
    decreases elems,
{
    let ghost gl = view_list(elems@);
    proof {
        lemma_wf_list_index(gl);
    }
    let mut i: usize = 0;
    assert(out@ =~= old(out)@ + list_bytes(gl.take(0)));
    while i < elems.len()
        invariant
            i <= elems.len(),
            gl == view_list(elems@),
            gl.len() == elems@.len(),
            forall|j: int| 0 <= j < gl.len() ==> wf_value(#[trigger] gl[j]),
            out@ == old(out)@ + list_bytes(gl.take(i as int)),
        decreases elems.len() - i,
    {
        proof {
            lemma_view_list_index(elems@, i as int);
        }
        encode_value(out, &elems[i]);
        proof {
            lemma_list_bytes_take_succ(gl, i as int);
        }
        i = i + 1;
    }
    assert(gl.take(gl.len() as int) =~= gl);
}

/// Appends the encodings of a list of key/value pairs, each key directly
/// followed by its value.
fn encode_pairs(out: &mut Vec<u8>, pairs: &Vec<(Value, Value)>)
    requires
        wf_pairs(view_pairs(pairs@)),
    ensures
        final(out)@ == old(out)@ + pairs_bytes(view_pairs(pairs@)),
    decreases pairs,
{
    let ghost gl = view_pairs(pairs@);
    proof {
        lemma_wf_pairs_index(gl);
    }
    let mut i: usize = 0;
    assert(out@ =~= old(out)@ + pairs_bytes(gl.take(0)));
    while i < pairs.len()
        invariant
            i <= pairs.len(),
            gl == view_pairs(pairs@),
            gl.len() == pairs@.len(),
            forall|j: int|
                0 <= j < gl.len() ==> wf_value(#[trigger] gl[j].0) && wf_value(gl[j].1),
            out@ == old(out)@ + pairs_bytes(gl.take(i as int)),
        decreases pairs.len() - i,
    {
        proof {
            lemma_view_pairs_index(pairs@, i as int);
            assert(wf_value(gl[i as int].0));
            assert(wf_value(gl[i as int].1));
        }
        encode_value(out, &pairs[i].0);
        encode_value(out, &pairs[i].1);
        proof {
            lemma_pairs_bytes_take_succ(gl, i as int);
        }
        i = i + 1;
    }
    assert(gl.take(gl.len() as int) =~= gl);
}

/// The model of a [`Serializer`]: its compression setting and the body
/// bytes written so far, before the transport is applied.
pub ghost struct SerializerView {
    pub compression: Compression,
    pub body: Seq<u8>,
}

/// Visitor-driven writer for one stream: the caller issues one call per
/// value node, in depth-first order, each composite pre-declaring its
/// element or pair count; [`Serializer::finish`] then frames the body with
/// the header and the compression transport.
pub struct Serializer {
    compression: Compression,
    body: Vec<u8>,
}

impl View for Serializer {
    type V = SerializerView;

    closed spec fn view(&self) -> SerializerView {
        SerializerView { compression: self.compression, body: self.body@ }
    }
}

impl Serializer {
    /// Binds a serializer to a compression setting, with an empty body.
    /// The effort level must be one the compressing backend accepts.
    pub fn new(compression: Compression) -> (r: Result<Serializer, Error>)
        requires
            compress::spec_level_supported(compression),
        ensures
            r matches Ok(s) && s@ == (SerializerView {
                compression,
                body: Seq::<u8>::empty(),
            }),
    {
        let body: Vec<u8> = Vec::new();
        assert(body@ =~= Seq::<u8>::empty());
        Ok(Serializer { compression, body })
    }

    pub fn serialize_bool(&mut self, v: bool) -> (r: Result<(), Error>)
        ensures
            r is Ok,
            final(self)@.compression == old(self)@.compression,
            final(self)@.body == old(self)@.body + value_bytes(SpecValue::Bool(v)),
    {
        wire::write_u8(&mut self.body, BOOL_ID);
        wire::write_u8(&mut self.body, if v { 1 } else { 0 });
        assert(self.body@ =~= old(self)@.body + value_bytes(SpecValue::Bool(v)));
        Ok(())
    }

    pub fn serialize_i8(&mut self, v: i8) -> (r: Result<(), Error>)
        ensures
            r is Ok,
            final(self)@.compression == old(self)@.compression,
            final(self)@.body == old(self)@.body + value_bytes(SpecValue::I8(v)),
    {
        wire::write_u8(&mut self.body, I8_ID);
        wire::write_u8(&mut self.body, v as u8);
        assert(self.body@ =~= old(self)@.body + value_bytes(SpecValue::I8(v)));
        Ok(())
    }

    pub fn serialize_i16(&mut self, v: i16) -> (r: Result<(), Error>)
        ensures
            r is Ok,
            final(self)@.compression == old(self)@.compression,
            final(self)@.body == old(self)@.body + value_bytes(SpecValue::I16(v)),
    {
        wire::write_u8(&mut self.body, I16_ID);
        wire::write_u16_be(&mut self.body, v as u16);
        assert(self.body@ =~= old(self)@.body + value_bytes(SpecValue::I16(v)));
        Ok(())
    }

    pub fn serialize_i32(&mut self, v: i32) -> (r: Result<(), Error>)
        ensures
            r is Ok,
            final(self)@.compression == old(self)@.compression,
            final(self)@.body == old(self)@.body + value_bytes(SpecValue::I32(v)),
    {
        wire::write_u8(&mut self.body, I32_ID);
        wire::write_u32_be(&mut self.body, v as u32);
        assert(self.body@ =~= old(self)@.body + value_bytes(SpecValue::I32(v)));
        Ok(())
    }

    pub fn serialize_i64(&mut self, v: i64) -> (r: Result<(), Error>)
        ensures
            r is Ok,
            final(self)@.compression == old(self)@.compression,
            final(self)@.body == old(self)@.body + value_bytes(SpecValue::I64(v)),
    {
        wire::write_u8(&mut self.body, I64_ID);
        wire::write_u64_be(&mut self.body, v as u64);
        assert(self.body@ =~= old(self)@.body + value_bytes(SpecValue::I64(v)));
        Ok(())
    }

    pub fn serialize_u8(&mut self, v: u8) -> (r: Result<(), Error>)
        ensures
            r is Ok,
            final(self)@.compression == old(self)@.compression,
            final(self)@.body == old(self)@.body + value_bytes(SpecValue::U8(v)),
    {
        wire::write_u8(&mut self.body, U8_ID);
        wire::write_u8(&mut self.body, v);
        assert(self.body@ =~= old(self)@.body + value_bytes(SpecValue::U8(v)));
        Ok(())
    }

    pub fn serialize_u16(&mut self, v: u16) -> (r: Result<(), Error>)
        ensures
            r is Ok,
            final(self)@.compression == old(self)@.compression,
            final(self)@.body == old(self)@.body + value_bytes(SpecValue::U16(v)),
    {
        wire::write_u8(&mut self.body, U16_ID);
        wire::write_u16_be(&mut self.body, v);
        assert(self.body@ =~= old(self)@.body + value_bytes(SpecValue::U16(v)));
        Ok(())
    }

    pub fn serialize_u32(&mut self, v: u32) -> (r: Result<(), Error>)
        ensures
            r is Ok,
            final(self)@.compression == old(self)@.compression,
            final(self)@.body == old(self)@.body + value_bytes(SpecValue::U32(v)),
    {
        wire::write_u8(&mut self.body, U32_ID);
        wire::write_u32_be(&mut self.body, v);
        assert(self.body@ =~= old(self)@.body + value_bytes(SpecValue::U32(v)));
        Ok(())
    }

    pub fn serialize_u64(&mut self, v: u64) -> (r: Result<(), Error>)
        ensures
            r is Ok,
            final(self)@.compression == old(self)@.compression,
            final(self)@.body == old(self)@.body + value_bytes(SpecValue::U64(v)),
    {
        wire::write_u8(&mut self.body, U64_ID);
        wire::write_u64_be(&mut self.body, v);
        assert(self.body@ =~= old(self)@.body + value_bytes(SpecValue::U64(v)));
        Ok(())
    }

    /// Serializes a 32-bit float given as its IEEE-754 bit pattern.
    pub fn serialize_f32_bits(&mut self, bits: u32) -> (r: Result<(), Error>)
        ensures
            r is Ok,
            final(self)@.compression == old(self)@.compression,
            final(self)@.body == old(self)@.body + value_bytes(SpecValue::F32Bits(bits)),
    {
        wire::write_u8(&mut self.body, F32_ID);
        wire::write_u32_be(&mut self.body, bits);
        assert(self.body@ =~= old(self)@.body + value_bytes(SpecValue::F32Bits(bits)));
        Ok(())
    }

    /// Serializes a 64-bit float given as its IEEE-754 bit pattern.
    pub fn serialize_f64_bits(&mut self, bits: u64) -> (r: Result<(), Error>)
        ensures
            r is Ok,
            final(self)@.compression == old(self)@.compression,
            final(self)@.body == old(self)@.body + value_bytes(SpecValue::F64Bits(bits)),
    {
        wire::write_u8(&mut self.body, F64_ID);
        wire::write_u64_be(&mut self.body, bits);
        assert(self.body@ =~= old(self)@.body + value_bytes(SpecValue::F64Bits(bits)));
        Ok(())
    }

    /// Serializes one char: its tag, then its UTF-8 bytes, with no length
    /// field (the width is recoverable from the leading byte).
    pub fn serialize_char(&mut self, v: char) -> (r: Result<(), Error>)
        ensures
            r is Ok,
            final(self)@.compression == old(self)@.compression,
            final(self)@.body == old(self)@.body + value_bytes(SpecValue::Char(v)),
    {
        wire::write_u8(&mut self.body, CHAR_ID);
        crate::text::push_char_utf8(&mut self.body, v);
        assert(self.body@ =~= old(self)@.body + value_bytes(SpecValue::Char(v)));
        Ok(())
    }

    /// Serializes a string: tag, `u32` byte length, UTF-8 bytes.
    pub fn serialize_str(&mut self, v: &str) -> (r: Result<(), Error>)
        requires
            v.spec_bytes().len() <= u32::MAX,
        ensures
            r is Ok,
            final(self)@.compression == old(self)@.compression,
            final(self)@.body == old(self)@.body + value_bytes(SpecValue::Str(v.spec_bytes())),
    {
        let bytes = v.as_bytes_vec();
        wire::write_u8(&mut self.body, STR_ID);
        wire::write_u32_be(&mut self.body, bytes.len() as u32);
        wire::append_bytes(&mut self.body, &bytes);
        assert(self.body@ =~= old(self)@.body + value_bytes(SpecValue::Str(v.spec_bytes())));
        Ok(())
    }

    /// Serializes raw bytes: tag, `u32` length, the bytes.
    pub fn serialize_bytes(&mut self, v: &[u8]) -> (r: Result<(), Error>)
        requires
            v@.len() <= u32::MAX,
        ensures
            r is Ok,
            final(self)@.compression == old(self)@.compression,
            final(self)@.body == old(self)@.body + value_bytes(SpecValue::Bytes(v@)),
    {
        wire::write_u8(&mut self.body, BYTES_ID);
        wire::write_u32_be(&mut self.body, v.len() as u32);
        wire::append_slice(&mut self.body, v);
        assert(self.body@ =~= old(self)@.body + value_bytes(SpecValue::Bytes(v@)));
        Ok(())
    }

    /// Serializes absence: the null tag alone.
    pub fn serialize_none(&mut self) -> (r: Result<(), Error>)
        ensures
            r is Ok,
            final(self)@.compression == old(self)@.compression,
            final(self)@.body == old(self)@.body + value_bytes(SpecValue::Null),
    {
        wire::write_u8(&mut self.body, NULL_ID);
        assert(self.body@ =~= old(self)@.body + value_bytes(SpecValue::Null));
        Ok(())
    }

    /// Serializes a present optional value: the value's own encoding, with
    /// no wrapper tag.
    pub fn serialize_some(&mut self, value: &Value) -> (r: Result<(), Error>)
        requires
            wf_value(value@),
        ensures
            r is Ok,
            final(self)@.compression == old(self)@.compression,
            final(self)@.body == old(self)@.body + value_bytes(value@),
    {
        encode_value(&mut self.body, value);
        Ok(())
    }

    /// Serializes the unit value: wire-identical to `serialize_none`.
    pub fn serialize_unit(&mut self) -> (r: Result<(), Error>)
        ensures
            r is Ok,
            final(self)@.compression == old(self)@.compression,
            final(self)@.body == old(self)@.body + value_bytes(SpecValue::Null),
    {
        self.serialize_none()
    }

    /// Serializes a zero-field unit struct: wire-identical to `serialize_none`.
    pub fn serialize_unit_struct(&mut self, _name: &str) -> (r: Result<(), Error>)
        ensures
            r is Ok,
            final(self)@.compression == old(self)@.compression,
            final(self)@.body == old(self)@.body + value_bytes(SpecValue::Null),
    {
        self.serialize_none()
    }

    /// Serializes a unit enum variant: its tag and numeric index.
    pub fn serialize_unit_variant(
        &mut self,
        _name: &str,
        variant_index: u32,
        _variant: &str,
    ) -> (r: Result<(), Error>)
        ensures
            r is Ok,
            final(self)@.compression == old(self)@.compression,
            final(self)@.body == old(self)@.body + value_bytes(
                SpecValue::UnitVariant(variant_index),
            ),
    {
        wire::write_u8(&mut self.body, UNIT_VARIANT_ID);
        wire::write_u32_be(&mut self.body, variant_index);
        assert(self.body@ =~= old(self)@.body + value_bytes(
            SpecValue::UnitVariant(variant_index),
        ));
        Ok(())
    }

    /// Serializes a newtype struct: the inner value's own encoding.
    pub fn serialize_newtype_struct(&mut self, _name: &str, value: &Value) -> (r: Result<
        (),
        Error,
    >)
        requires
            wf_value(value@),
        ensures
            r is Ok,
            final(self)@.compression == old(self)@.compression,
            final(self)@.body == old(self)@.body + value_bytes(value@),
    {
        encode_value(&mut self.body, value);
        Ok(())
    }

    /// Serializes a newtype enum variant: tag, index, then the inner value.
    pub fn serialize_newtype_variant(
        &mut self,
        _name: &str,
        variant_index: u32,
        _variant: &str,
        value: &Value,
    ) -> (r: Result<(), Error>)
        requires
            wf_value(value@),
        ensures
            r is Ok,
            final(self)@.compression == old(self)@.compression,
            final(self)@.body == old(self)@.body + seq![NEWTYPE_VARIANT_ID] + wire::spec_be32(
                variant_index,
            ) + value_bytes(value@),
    {
        wire::write_u8(&mut self.body, NEWTYPE_VARIANT_ID);
        wire::write_u32_be(&mut self.body, variant_index);
        encode_value(&mut self.body, value);
        assert(self.body@ =~= old(self)@.body + seq![NEWTYPE_VARIANT_ID] + wire::spec_be32(
            variant_index,
        ) + value_bytes(value@));
        Ok(())
    }

    /// Opens a newtype enum variant for a caller that serializes the
    /// payload itself: its tag and numeric index, after which exactly one
    /// value's encoding follows.
    pub fn serialize_newtype_variant_header(&mut self, variant_index: u32) -> (r: Result<
        (),
        Error,
    >)
        ensures
            r is Ok,
            final(self)@.compression == old(self)@.compression,
            final(self)@.body == old(self)@.body + seq![NEWTYPE_VARIANT_ID] + wire::spec_be32(
                variant_index,
            ),
    {
        wire::write_u8(&mut self.body, NEWTYPE_VARIANT_ID);
        wire::write_u32_be(&mut self.body, variant_index);
        assert(self.body@ =~= old(self)@.body + seq![NEWTYPE_VARIANT_ID] + wire::spec_be32(
            variant_index,
        ));
        Ok(())
    }

    /// Opens a sequence: tag and element count.  A sequence whose length
    /// is not known up front is rejected before any byte is written.
    pub fn serialize_seq(&mut self, len: Option<usize>) -> (r: Result<(), Error>)
        requires
            len matches Some(n) ==> n <= u32::MAX,
        ensures
            r is Ok <==> len is Some,
            final(self)@.compression == old(self)@.compression,
            len matches Some(n) ==> final(self)@.body == old(self)@.body + seq![SEQ_ID]
                + wire::spec_be32(n as u32),
            len is None ==> (r matches Err(e) && e is LengthRequired && final(self)@.body
                == old(self)@.body),
    {
        match len {
            Option::Some(n) => {
                wire::write_u8(&mut self.body, SEQ_ID);
                wire::write_u32_be(&mut self.body, n as u32);
                assert(self.body@ =~= old(self)@.body + seq![SEQ_ID] + wire::spec_be32(n as u32));
                Ok(())
            },
            Option::None => Err(Error::LengthRequired),
        }
    }

    /// Opens a tuple: tag and arity.
    pub fn serialize_tuple(&mut self, len: usize) -> (r: Result<(), Error>)
        requires
            len <= u32::MAX,
        ensures
            r is Ok,
            final(self)@.compression == old(self)@.compression,
            final(self)@.body == old(self)@.body + seq![TUPLE_ID] + wire::spec_be32(len as u32),
    {
        wire::write_u8(&mut self.body, TUPLE_ID);
        wire::write_u32_be(&mut self.body, len as u32);
        assert(self.body@ =~= old(self)@.body + seq![TUPLE_ID] + wire::spec_be32(len as u32));
        Ok(())
    }

    /// Opens a tuple struct: tag and arity.
    pub fn serialize_tuple_struct(&mut self, _name: &str, len: usize) -> (r: Result<(), Error>)
        requires
            len <= u32::MAX,
        ensures
            r is Ok,
            final(self)@.compression == old(self)@.compression,
            final(self)@.body == old(self)@.body + seq![TUPLE_STRUCT_ID] + wire::spec_be32(
                len as u32,
            ),
    {
        wire::write_u8(&mut self.body, TUPLE_STRUCT_ID);
        wire::write_u32_be(&mut self.body, len as u32);
        assert(self.body@ =~= old(self)@.body + seq![TUPLE_STRUCT_ID] + wire::spec_be32(
            len as u32,
        ));
        Ok(())
    }

    /// Opens a tuple enum variant: tag, index, arity.
    pub fn serialize_tuple_variant(
        &mut self,
        _name: &str,
        variant_index: u32,
        _variant: &str,
        len: usize,
    ) -> (r: Result<(), Error>)
        requires
            len <= u32::MAX,
        ensures
            r is Ok,
            final(self)@.compression == old(self)@.compression,
            final(self)@.body == old(self)@.body + seq![TUPLE_VARIANT_ID] + wire::spec_be32(
                variant_index,
            ) + wire::spec_be32(len as u32),
    {
        wire::write_u8(&mut self.body, TUPLE_VARIANT_ID);
        wire::write_u32_be(&mut self.body, variant_index);
        wire::write_u32_be(&mut self.body, len as u32);
        assert(self.body@ =~= old(self)@.body + seq![TUPLE_VARIANT_ID] + wire::spec_be32(
            variant_index,
        ) + wire::spec_be32(len as u32));
        Ok(())
    }

    /// Opens a map: tag and pair count.  A map whose length is not known
    /// up front is rejected before any byte is written.
    pub fn serialize_map(&mut self, len: Option<usize>) -> (r: Result<(), Error>)
        requires
            len matches Some(n) ==> n <= u32::MAX,
        ensures
            r is Ok <==> len is Some,
            final(self)@.compression == old(self)@.compression,
            len matches Some(n) ==> final(self)@.body == old(self)@.body + seq![MAP_ID]
                + wire::spec_be32(n as u32),
            len is None ==> (r matches Err(e) && e is LengthRequired && final(self)@.body
                == old(self)@.body),
    {
        match len {
            Option::Some(n) => {
                wire::write_u8(&mut self.body, MAP_ID);
                wire::write_u32_be(&mut self.body, n as u32);
                assert(self.body@ =~= old(self)@.body + seq![MAP_ID] + wire::spec_be32(n as u32));
                Ok(())
            },
            Option::None => Err(Error::LengthRequired),
        }
    }

    /// Opens a struct: emitted as a string-keyed map, so the tag is the
    /// map tag and the count is the field count.
    pub fn serialize_struct(&mut self, _name: &str, len: usize) -> (r: Result<(), Error>)
        requires
            len <= u32::MAX,
        ensures
            r is Ok,
            final(self)@.compression == old(self)@.compression,
            final(self)@.body == old(self)@.body + seq![MAP_ID] + wire::spec_be32(len as u32),
    {
        wire::write_u8(&mut self.body, MAP_ID);
        wire::write_u32_be(&mut self.body, len as u32);
        assert(self.body@ =~= old(self)@.body + seq![MAP_ID] + wire::spec_be32(len as u32));
        Ok(())
    }

    /// Opens a struct enum variant: tag, index, field count.
    pub fn serialize_struct_variant(
        &mut self,
        _name: &str,
        variant_index: u32,
        _variant: &str,
        len: usize,
    ) -> (r: Result<(), Error>)
        requires
            len <= u32::MAX,
        ensures
            r is Ok,
            final(self)@.compression == old(self)@.compression,
            final(self)@.body == old(self)@.body + seq![STRUCT_VARIANT_ID] + wire::spec_be32(
                variant_index,
            ) + wire::spec_be32(len as u32),
    {
        wire::write_u8(&mut self.body, STRUCT_VARIANT_ID);
        wire::write_u32_be(&mut self.body, variant_index);
        wire::write_u32_be(&mut self.body, len as u32);
        assert(self.body@ =~= old(self)@.body + seq![STRUCT_VARIANT_ID] + wire::spec_be32(
            variant_index,
        ) + wire::spec_be32(len as u32));
        Ok(())
    }

    /// Serializes one element of an open sequence or tuple.
    pub fn serialize_element(&mut self, value: &Value) -> (r: Result<(), Error>)
        requires
            wf_value(value@),
        ensures
            r is Ok,
            final(self)@.compression == old(self)@.compression,
            final(self)@.body == old(self)@.body + value_bytes(value@),
    {
        encode_value(&mut self.body, value);
        Ok(())
    }

    /// Serializes one key of an open map.
    pub fn serialize_key(&mut self, key: &Value) -> (r: Result<(), Error>)
        requires
            wf_value(key@),
        ensures
            r is Ok,
            final(self)@.compression == old(self)@.compression,
            final(self)@.body == old(self)@.body + value_bytes(key@),
    {
        encode_value(&mut self.body, key);
        Ok(())
    }

    /// Serializes one value of an open map.
    pub fn serialize_value(&mut self, value: &Value) -> (r: Result<(), Error>)
        requires
            wf_value(value@),
        ensures
            r is Ok,
            final(self)@.compression == old(self)@.compression,
            final(self)@.body == old(self)@.body + value_bytes(value@),
    {
        encode_value(&mut self.body, value);
        Ok(())
    }

    /// Serializes one named field of an open struct or struct variant:
    /// the name as a string value, then the field's value.
    pub fn serialize_field(&mut self, key: &str, value: &Value) -> (r: Result<(), Error>)
        requires
            key.spec_bytes().len() <= u32::MAX,
            wf_value(value@),
        ensures
            r is Ok,
            final(self)@.compression == old(self)@.compression,
            final(self)@.body == old(self)@.body + value_bytes(SpecValue::Str(key.spec_bytes()))
                + value_bytes(value@),
    {
        match self.serialize_str(key) {
            Ok(()) => {},
            Err(e) => {
                return Err(e);
            },
        }
        encode_value(&mut self.body, value);
        Ok(())
    }

    /// Finalizes the stream: the header for the chosen setting, then the
    /// body as the compression transport carries it.  Consuming the
    /// serializer guarantees the transport is flushed exactly once.
    pub fn finish(self) -> (r: Result<Vec<u8>, Error>)
        requires
            compress::spec_level_supported(self@.compression),
        ensures
            r matches Ok(b) && b@ == spec_header_bytes(
                HeaderView {
                    compression: self@.compression,
                    version: 1,
                    header_name: magic_bytes(),
                },
            ) + compress::spec_body_transport(self@.compression, self@.body),
    {
        let Serializer { compression, body } = self;
        let mut out: Vec<u8> = Vec::new();
        let header = FileHeader::new(compression);
        match header.to_writer(&mut out) {
            Ok(()) => {},
            Err(e) => {
                return Err(e);
            },
        }
        let transported = match compression {
            Compression::Plain => body,
            Compression::Deflate(l) => compress::deflate_compress(&body, l),
            Compression::Gzip(l) => compress::gzip_compress(&body, l),
            Compression::Zlib(l) => compress::zlib_compress(&body, l),
        };
        wire::append_bytes(&mut out, &transported);
        Ok(out)
    }
}

/// The complete byte stream for a value under a compression setting:
/// the header announcing the setting, then the value's canonical bytes as
/// the transport carries them.
pub open spec fn spec_stream_bytes(v: SpecValue, c: Compression) -> Seq<u8> {
    spec_header_bytes(
        HeaderView { compression: c, version: 1, header_name: magic_bytes() },
    ) + compress::spec_body_transport(c, value_bytes(v))
}

/// Serializes a value into a byte vector: header, then the value through
/// the chosen compression transport.
pub fn to_bytes(value: &Value, compression: Compression) -> (r: Result<Vec<u8>, Error>)
    requires
        wf_value(value@),
        compress::spec_level_supported(compression),
    ensures
        r matches Ok(b) && b@ == spec_stream_bytes(value@, compression),
{
    let mut body: Vec<u8> = Vec::new();
    encode_value(&mut body, value);
    let mut out: Vec<u8> = Vec::new();
    let header = FileHeader::new(compression);
    match header.to_writer(&mut out) {
        Ok(()) => {},
        Err(e) => {
            return Err(e);
        },
    }
    let transported = match compression {
        Compression::Plain => body,
        Compression::Deflate(l) => compress::deflate_compress(&body, l),
        Compression::Gzip(l) => compress::gzip_compress(&body, l),
        Compression::Zlib(l) => compress::zlib_compress(&body, l),
    };
    wire::append_bytes(&mut out, &transported);
    assert(out@ =~= spec_stream_bytes(value@, compression));
    Ok(out)
}

} // verus!
