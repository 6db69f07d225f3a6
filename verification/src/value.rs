//! The tree of values the codec can carry, its mathematical model, and the
//! canonical byte encoding of a value.
//!
//! Floating-point values are carried as their IEEE-754 bit patterns
//! (`F32Bits`/`F64Bits`); the wire holds exactly those bits, so no
//! floating-point arithmetic is involved anywhere in the codec.
//! Strings are carried as their UTF-8 bytes, with validity part of
//! well-formedness.

use vstd::prelude::*;
use vstd::utf8::*;
use crate::data_ids::{
    NULL_ID, BOOL_ID, I8_ID, I16_ID, I32_ID, I64_ID, U8_ID, U16_ID, U32_ID, U64_ID, F32_ID,
    F64_ID, CHAR_ID, STR_ID, BYTES_ID, SEQ_ID, TUPLE_ID, UNIT_VARIANT_ID, NEWTYPE_VARIANT_ID,
    TUPLE_VARIANT_ID, STRUCT_VARIANT_ID, TUPLE_STRUCT_ID, MAP_ID,
};
use crate::wire::{spec_be16, spec_be32, spec_be64};

verus! {

/// A self-describing value, the unit of encoding and decoding.
///
/// `Option` and unit values have no variant of their own: absence and unit
/// both encode as `Null`, and a present value encodes as itself (see the
/// option/unit collapse of the wire contract).  Structs encode as
/// string-keyed maps and decode as `Mapping`.
#[derive(Debug, PartialEq)]
pub enum Value {
    Null,
    Bool(bool),
    I8(i8),
    I16(i16),
    I32(i32),
    I64(i64),
    U8(u8),
    U16(u16),
    U32(u32),
    U64(u64),
    F32Bits(u32),
    F64Bits(u64),
    Char(char),
    Str(Vec<u8>),
    Bytes(Vec<u8>),
    Sequence(Vec<Value>),
    Tuple(Vec<Value>),
    TupleStruct(Vec<Value>),
    Mapping(Vec<(Value, Value)>),
    UnitVariant(u32),
    NewtypeVariant(u32, Box<Value>),
    TupleVariant(u32, Vec<Value>),
    StructVariant(u32, Vec<(Value, Value)>),
}

/// The mathematical model of a [`Value`]: the same tree over `Seq` instead
/// of `Vec`.  All contracts of the codec speak about this type.
pub ghost enum SpecValue {
    Null,
    Bool(bool),
    I8(i8),
    I16(i16),
    I32(i32),
    I64(i64),
    U8(u8),
    U16(u16),
    U32(u32),
    U64(u64),
    F32Bits(u32),
    F64Bits(u64),
    Char(char),
    Str(Seq<u8>),
    Bytes(Seq<u8>),
    Sequence(Seq<SpecValue>),
    Tuple(Seq<SpecValue>),
    TupleStruct(Seq<SpecValue>),
    Mapping(Seq<(SpecValue, SpecValue)>),
    UnitVariant(u32),
    NewtypeVariant(u32, Box<SpecValue>),
    TupleVariant(u32, Seq<SpecValue>),
    StructVariant(u32, Seq<(SpecValue, SpecValue)>),
}

/// The model of a value: the same tree with every `Vec` replaced by its view.
pub open spec fn view_value(v: Value) -> SpecValue
    decreases v,
{
    match v {
        Value::Null => SpecValue::Null,
        Value::Bool(b) => SpecValue::Bool(b),
        Value::I8(x) => SpecValue::I8(x),
        Value::I16(x) => SpecValue::I16(x),
        Value::I32(x) => SpecValue::I32(x),
        Value::I64(x) => SpecValue::I64(x),
        Value::U8(x) => SpecValue::U8(x),
        Value::U16(x) => SpecValue::U16(x),
        Value::U32(x) => SpecValue::U32(x),
        Value::U64(x) => SpecValue::U64(x),
        Value::F32Bits(x) => SpecValue::F32Bits(x),
        Value::F64Bits(x) => SpecValue::F64Bits(x),
        Value::Char(c) => SpecValue::Char(c),
        Value::Str(b) => SpecValue::Str(b@),
        Value::Bytes(b) => SpecValue::Bytes(b@),
        Value::Sequence(elems) => SpecValue::Sequence(view_list(elems@)),
        Value::Tuple(elems) => SpecValue::Tuple(view_list(elems@)),
        Value::TupleStruct(elems) => SpecValue::TupleStruct(view_list(elems@)),
        Value::Mapping(pairs) => SpecValue::Mapping(view_pairs(pairs@)),
        Value::UnitVariant(i) => SpecValue::UnitVariant(i),
        Value::NewtypeVariant(i, inner) => SpecValue::NewtypeVariant(
            i,
            Box::new(view_value(*inner)),
        ),
        Value::TupleVariant(i, elems) => SpecValue::TupleVariant(i, view_list(elems@)),
        Value::StructVariant(i, pairs) => SpecValue::StructVariant(i, view_pairs(pairs@)),
    }
}

/// The models of a list of values, in order.
pub open spec fn view_list(l: Seq<Value>) -> Seq<SpecValue>
    decreases l,
{
    if l.len() == 0 {
        Seq::empty()
    } else {
        seq![view_value(l[0])] + view_list(l.drop_first())
    }
}

/// The models of a list of key/value pairs, in order.
pub open spec fn view_pairs(l: Seq<(Value, Value)>) -> Seq<(SpecValue, SpecValue)>
    decreases l,
{
    if l.len() == 0 {
        Seq::empty()
    } else {
        seq![(view_value(l[0].0), view_value(l[0].1))] + view_pairs(l.drop_first())
    }
}

impl View for Value {
    type V = SpecValue;

    open spec fn view(&self) -> SpecValue {
        view_value(*self)
    }
}

pub broadcast proof fn lemma_view_list_len(l: Seq<Value>)
    ensures
        #[trigger] view_list(l).len() == l.len(),
    decreases l,
{
    if l.len() != 0 {
        lemma_view_list_len(l.drop_first());
    }
}

pub broadcast proof fn lemma_view_list_index(l: Seq<Value>, i: int)
    requires
        0 <= i < l.len(),
    ensures
        #[trigger] view_list(l)[i] == l[i]@,
    decreases l,
{
    lemma_view_list_len(l);
    if i > 0 {
        lemma_view_list_index(l.drop_first(), i - 1);
    }
}

pub broadcast proof fn lemma_view_pairs_len(l: Seq<(Value, Value)>)
    ensures
        #[trigger] view_pairs(l).len() == l.len(),
    decreases l,
{
    if l.len() != 0 {
        lemma_view_pairs_len(l.drop_first());
    }
}

pub broadcast proof fn lemma_view_pairs_index(l: Seq<(Value, Value)>, i: int)
    requires
        0 <= i < l.len(),
    ensures
        #[trigger] view_pairs(l)[i] == (l[i].0@, l[i].1@),
    decreases l,
{
    lemma_view_pairs_len(l);
    if i > 0 {
        lemma_view_pairs_index(l.drop_first(), i - 1);
    }
}

/// Appending one element to a list appends its model to the list's model.
pub proof fn lemma_view_list_push(l: Seq<Value>, x: Value)
    ensures
        view_list(l.push(x)) == view_list(l) + seq![view_value(x)],
{
    lemma_view_list_len(l);
    lemma_view_list_len(l.push(x));
    assert forall|i: int| 0 <= i < l.len() + 1 implies view_list(l.push(x))[i] == (view_list(l)
        + seq![view_value(x)])[i] by {
        lemma_view_list_index(l.push(x), i);
        if i < l.len() {
            lemma_view_list_index(l, i);
        }
    }
    assert(view_list(l.push(x)) =~= view_list(l) + seq![view_value(x)]);
}

/// Appending one pair to a list appends its model to the list's model.
pub proof fn lemma_view_pairs_push(l: Seq<(Value, Value)>, k: Value, v: Value)
    ensures
        view_pairs(l.push((k, v))) == view_pairs(l) + seq![(view_value(k), view_value(v))],
{
    lemma_view_pairs_len(l);
    lemma_view_pairs_len(l.push((k, v)));
    assert forall|i: int| 0 <= i < l.len() + 1 implies view_pairs(l.push((k, v)))[i] == (view_pairs(
        l,
    ) + seq![(view_value(k), view_value(v))])[i] by {
        lemma_view_pairs_index(l.push((k, v)), i);
        if i < l.len() {
            lemma_view_pairs_index(l, i);
        }
    }
    assert(view_pairs(l.push((k, v))) =~= view_pairs(l) + seq![(view_value(k), view_value(v))]);
}

/// Well-formedness of a value: string bytes are valid UTF-8, and every
/// composite is small enough for its count (or byte length) to be carried
/// in the `u32` length field of the wire format.
pub open spec fn wf_value(v: SpecValue) -> bool
    decreases v,
{
    match v {
        SpecValue::Str(b) => b.len() <= u32::MAX && valid_utf8(b),
        SpecValue::Bytes(b) => b.len() <= u32::MAX,
        SpecValue::Sequence(elems) => elems.len() <= u32::MAX && wf_list(elems),
        SpecValue::Tuple(elems) => elems.len() <= u32::MAX && wf_list(elems),
        SpecValue::TupleStruct(elems) => elems.len() <= u32::MAX && wf_list(elems),
        SpecValue::Mapping(pairs) => pairs.len() <= u32::MAX && wf_pairs(pairs),
        SpecValue::NewtypeVariant(_i, inner) => wf_value(*inner),
        SpecValue::TupleVariant(_i, elems) => elems.len() <= u32::MAX && wf_list(elems),
        SpecValue::StructVariant(_i, pairs) => pairs.len() <= u32::MAX && wf_pairs(pairs),
        _ => true,
    }
}

pub open spec fn wf_list(l: Seq<SpecValue>) -> bool
    decreases l,
{
    l.len() != 0 ==> wf_value(l[0]) && wf_list(l.drop_first())
}

pub open spec fn wf_pairs(l: Seq<(SpecValue, SpecValue)>) -> bool
    decreases l,
{
    l.len() != 0 ==> wf_value(l[0].0) && wf_value(l[0].1) && wf_pairs(l.drop_first())
}

pub broadcast proof fn lemma_wf_list_index(l: Seq<SpecValue>)
    requires
        #[trigger] wf_list(l),
    ensures
        forall|i: int| 0 <= i < l.len() ==> wf_value(#[trigger] l[i]),
    decreases l,
{
    if l.len() != 0 {
        lemma_wf_list_index(l.drop_first());
        assert forall|i: int| 0 <= i < l.len() implies wf_value(l[i]) by {
            if i > 0 {
                assert(l.drop_first()[i - 1] == l[i]);
            }
        }
    }
}

pub broadcast proof fn lemma_wf_pairs_index(l: Seq<(SpecValue, SpecValue)>)
    requires
        #[trigger] wf_pairs(l),
    ensures
        forall|i: int|
            0 <= i < l.len() ==> wf_value(#[trigger] l[i].0) && wf_value(l[i].1),
    decreases l,
{
    if l.len() != 0 {
        lemma_wf_pairs_index(l.drop_first());
        assert forall|i: int| 0 <= i < l.len() implies wf_value(l[i].0) && wf_value(l[i].1) by {
            if i > 0 {
                assert(l.drop_first()[i - 1] == l[i]);
            }
        }
    }
}

/// The canonical encoding of a value: one tag byte, then the tag-specific
/// payload, composites carrying a big-endian `u32` count before their
/// elements.
pub open spec fn value_bytes(v: SpecValue) -> Seq<u8>
    decreases v,
{
    match v {
        SpecValue::Null => seq![NULL_ID],
        SpecValue::Bool(b) => seq![BOOL_ID, if b { 1u8 } else { 0u8 }],
        SpecValue::I8(x) => seq![I8_ID, x as u8],
        SpecValue::I16(x) => seq![I16_ID] + spec_be16(x as u16),
        SpecValue::I32(x) => seq![I32_ID] + spec_be32(x as u32),
        SpecValue::I64(x) => seq![I64_ID] + spec_be64(x as u64),
        SpecValue::U8(x) => seq![U8_ID, x],
        SpecValue::U16(x) => seq![U16_ID] + spec_be16(x),
        SpecValue::U32(x) => seq![U32_ID] + spec_be32(x),
        SpecValue::U64(x) => seq![U64_ID] + spec_be64(x),
        SpecValue::F32Bits(x) => seq![F32_ID] + spec_be32(x),
        SpecValue::F64Bits(x) => seq![F64_ID] + spec_be64(x),
        SpecValue::Char(c) => seq![CHAR_ID] + encode_scalar(c as u32),
        SpecValue::Str(b) => seq![STR_ID] + spec_be32(b.len() as u32) + b,
        SpecValue::Bytes(b) => seq![BYTES_ID] + spec_be32(b.len() as u32) + b,
        SpecValue::Sequence(elems) => seq![SEQ_ID] + spec_be32(elems.len() as u32) + list_bytes(
            elems,
        ),
        SpecValue::Tuple(elems) => seq![TUPLE_ID] + spec_be32(elems.len() as u32) + list_bytes(
            elems,
        ),
        SpecValue::TupleStruct(elems) => seq![TUPLE_STRUCT_ID] + spec_be32(elems.len() as u32)
            + list_bytes(elems),
        SpecValue::Mapping(pairs) => seq![MAP_ID] + spec_be32(pairs.len() as u32) + pairs_bytes(
            pairs,
        ),
        SpecValue::UnitVariant(i) => seq![UNIT_VARIANT_ID] + spec_be32(i),
        SpecValue::NewtypeVariant(i, inner) => seq![NEWTYPE_VARIANT_ID] + spec_be32(i)
            + value_bytes(*inner),
        SpecValue::TupleVariant(i, elems) => seq![TUPLE_VARIANT_ID] + spec_be32(i) + spec_be32(
            elems.len() as u32,
        ) + list_bytes(elems),
        SpecValue::StructVariant(i, pairs) => seq![STRUCT_VARIANT_ID] + spec_be32(i) + spec_be32(
            pairs.len() as u32,
        ) + pairs_bytes(pairs),
    }
}

/// The concatenation of the encodings of a list of values.
pub open spec fn list_bytes(l: Seq<SpecValue>) -> Seq<u8>
    decreases l,
{
    if l.len() == 0 {
        Seq::empty()
    } else {
        value_bytes(l[0]) + list_bytes(l.drop_first())
    }
}

/// The concatenation of the encodings of a list of pairs, each key directly
/// followed by its value.
pub open spec fn pairs_bytes(l: Seq<(SpecValue, SpecValue)>) -> Seq<u8>
    decreases l,
{
    if l.len() == 0 {
        Seq::empty()
    } else {
        value_bytes(l[0].0) + value_bytes(l[0].1) + pairs_bytes(l.drop_first())
    }
}

/// Every encoding starts with its tag byte, so it is never empty.
pub proof fn lemma_value_bytes_nonempty(v: SpecValue)
    ensures
        value_bytes(v).len() >= 1,
{
}

pub proof fn lemma_list_bytes_append(a: Seq<SpecValue>, b: Seq<SpecValue>)
    ensures
        list_bytes(a + b) == list_bytes(a) + list_bytes(b),
    decreases a,
{
    if a.len() == 0 {
        assert(a + b =~= b);
        assert(list_bytes(a) + list_bytes(b) =~= list_bytes(b));
    } else {
        assert((a + b).len() != 0);
        assert((a + b)[0] == a[0]);
        assert((a + b).drop_first() =~= a.drop_first() + b);
        lemma_list_bytes_append(a.drop_first(), b);
        assert(list_bytes(a + b) =~= list_bytes(a) + list_bytes(b));
    }
}

/// One more element at the end of an encoded prefix: the bytes of the
/// longer prefix are the bytes of the shorter one, then the element's.
pub proof fn lemma_list_bytes_take_succ(l: Seq<SpecValue>, i: int)
    requires
        0 <= i < l.len(),
    ensures
        list_bytes(l.take(i + 1)) == list_bytes(l.take(i)) + value_bytes(l[i]),
{
    assert(l.take(i + 1) =~= l.take(i) + seq![l[i]]);
    lemma_list_bytes_append(l.take(i), seq![l[i]]);
    assert(seq![l[i]].drop_first() =~= Seq::<SpecValue>::empty());
    assert(list_bytes(Seq::<SpecValue>::empty()) =~= Seq::<u8>::empty());
    assert(list_bytes(seq![l[i]]) =~= value_bytes(l[i]));
}

pub proof fn lemma_pairs_bytes_append(a: Seq<(SpecValue, SpecValue)>, b: Seq<(SpecValue, SpecValue)>)
    ensures
        pairs_bytes(a + b) == pairs_bytes(a) + pairs_bytes(b),
    decreases a,
{
    if a.len() == 0 {
        assert(a + b =~= b);
        assert(pairs_bytes(a) + pairs_bytes(b) =~= pairs_bytes(b));
    } else {
        assert((a + b).len() != 0);
        assert((a + b)[0] == a[0]);
        assert((a + b).drop_first() =~= a.drop_first() + b);
        lemma_pairs_bytes_append(a.drop_first(), b);
        assert(pairs_bytes(a + b) =~= pairs_bytes(a) + pairs_bytes(b));
    }
}

pub proof fn lemma_pairs_bytes_take_succ(l: Seq<(SpecValue, SpecValue)>, i: int)
    requires
        0 <= i < l.len(),
    ensures
        pairs_bytes(l.take(i + 1)) == pairs_bytes(l.take(i)) + value_bytes(l[i].0) + value_bytes(
            l[i].1,
        ),
{
    assert(l.take(i + 1) =~= l.take(i) + seq![l[i]]);
    lemma_pairs_bytes_append(l.take(i), seq![l[i]]);
    assert(seq![l[i]].drop_first() =~= Seq::<(SpecValue, SpecValue)>::empty());
    assert(pairs_bytes(Seq::<(SpecValue, SpecValue)>::empty()) =~= Seq::<u8>::empty());
    assert(pairs_bytes(seq![l[i]]) =~= value_bytes(l[i].0) + value_bytes(l[i].1));
    assert(pairs_bytes(l.take(i)) + pairs_bytes(seq![l[i]]) =~= pairs_bytes(l.take(i))
        + value_bytes(l[i].0) + value_bytes(l[i].1));
}

/// The byte encoding of a struct: its fields as string-keyed pairs, under
/// the map tag, in field-declaration order.
pub open spec fn struct_bytes(fields: Seq<(Seq<u8>, SpecValue)>) -> Seq<u8> {
    seq![MAP_ID] + spec_be32(fields.len() as u32) + fields_bytes(fields)
}

/// The concatenation of the encodings of a struct's fields, each name
/// encoded as a string value, directly followed by the field's value.
pub open spec fn fields_bytes(fields: Seq<(Seq<u8>, SpecValue)>) -> Seq<u8>
    decreases fields,
{
    if fields.len() == 0 {
        Seq::empty()
    } else {
        value_bytes(SpecValue::Str(fields[0].0)) + value_bytes(fields[0].1) + fields_bytes(
            fields.drop_first(),
        )
    }
}

/// The map a struct's fields denote: each field name becomes a string key.
pub open spec fn fields_as_pairs(fields: Seq<(Seq<u8>, SpecValue)>) -> Seq<(SpecValue, SpecValue)> {
    fields.map_values(|f: (Seq<u8>, SpecValue)| (SpecValue::Str(f.0), f.1))
}

/// The fields of a struct and the pairs of its map encode to the same
/// bytes, field by field.
proof fn lemma_fields_bytes_as_pairs(fields: Seq<(Seq<u8>, SpecValue)>)
    ensures
        fields_bytes(fields) == pairs_bytes(fields_as_pairs(fields)),
    decreases fields,
{
    let pairs = fields_as_pairs(fields);
    assert(pairs.len() == fields.len());
    if fields.len() != 0 {
        lemma_fields_bytes_as_pairs(fields.drop_first());
        assert(fields_as_pairs(fields.drop_first()) =~= pairs.drop_first());
        assert(pairs[0] == (SpecValue::Str(fields[0].0), fields[0].1));
        assert(fields_bytes(fields) =~= pairs_bytes(pairs));
    }
}

/// A struct encodes byte-identically to the string-keyed map of its
/// fields: structs are structurally indistinguishable from maps on the
/// wire.
pub proof fn lemma_struct_map_equivalence(fields: Seq<(Seq<u8>, SpecValue)>)
    ensures
        struct_bytes(fields) == value_bytes(SpecValue::Mapping(fields_as_pairs(fields))),
{
    let pairs = fields_as_pairs(fields);
    assert(pairs.len() == fields.len());
    lemma_fields_bytes_as_pairs(fields);
    assert(struct_bytes(fields) =~= value_bytes(SpecValue::Mapping(pairs)));
}

} // verus!
