use sbif::de::from_slice;
use sbif::se::{to_bytes, Serializer};
use sbif::value::Value;
use sbif::Compression;

fn deserialization_test_base(value: &Value, compression: Compression) {
    let serialized = to_bytes(value, compression).unwrap();
    let deserialized: Value = from_slice(&serialized).unwrap();
    assert_eq!(value, &deserialized);
}

fn deserialization_test(value: Value) {
    deserialization_test_base(&value, Compression::Plain);
    deserialization_test_base(&value, Compression::Deflate(6));
    deserialization_test_base(&value, Compression::Gzip(6));
    deserialization_test_base(&value, Compression::Zlib(6));
}

#[test]
fn test_bool_deserialization() {
    deserialization_test(Value::Bool(true));
    deserialization_test(Value::Bool(false));
}

#[test]
fn test_integer_deserialization() {
    deserialization_test(Value::I8(100));
    deserialization_test(Value::I16(100));
    deserialization_test(Value::I32(100));
    deserialization_test(Value::I64(100));
    deserialization_test(Value::U8(100));
    deserialization_test(Value::U16(100));
    deserialization_test(Value::U32(100));
    deserialization_test(Value::U64(100));
}

#[test]
fn test_float_deserialization() {
    deserialization_test(Value::F32Bits(100.0_f32.to_bits()));
    deserialization_test(Value::F64Bits(100.0_f64.to_bits()));
}

#[test]
fn test_char_deserialization() {
    deserialization_test(Value::Char('a')); // 1 byte
    deserialization_test(Value::Char('\u{a9}')); // 2 bytes
    deserialization_test(Value::Char('\u{925}')); // 3 bytes
    deserialization_test(Value::Char('\u{1f3a8}')); // 4 bytes
}

#[test]
fn test_string_deserialization() {
    deserialization_test(Value::Str(b"Hello World!".to_vec()));
}

#[test]
fn test_bytes_deserialization() {
    deserialization_test(Value::Bytes(b"Hello World!".to_vec()));
}

#[test]
fn test_seq_deserialization() {
    deserialization_test(Value::Sequence((0..10_u8).map(Value::U8).collect()));
    deserialization_test(Value::Sequence((0..10_i8).map(Value::I8).collect()));
    deserialization_test(Value::Sequence((0..10_i32).map(Value::I32).collect()));
}

#[test]
fn test_tuple_deserialization() {
    deserialization_test(Value::Tuple(vec![
        Value::U8(0),
        Value::Char('a'),
        Value::Str(b"Hello World!".to_vec()),
    ]));
}

#[test]
fn test_struct_deserialization() {
    // A zero-field unit struct encodes as the null value.
    deserialization_test(Value::Null);
    // A newtype struct encodes as its inner value alone.
    deserialization_test(Value::U8(1));
    // A tuple struct carries its fields under the tuple-struct tag.
    deserialization_test(Value::TupleStruct(vec![
        Value::U8(1),
        Value::Char('a'),
        Value::Str(b"Hello World!".to_vec()),
    ]));
    // A struct with named fields is a string-keyed map on the wire, and
    // self-describing decode hands it back as that map.
    let expected = Value::Mapping(vec![
        (Value::Str(b"a".to_vec()), Value::U8(1)),
        (Value::Str(b"b".to_vec()), Value::Char('a')),
        (Value::Str(b"c".to_vec()), Value::Str(b"Hello World!".to_vec())),
    ]);
    for compression in [
        Compression::Plain,
        Compression::Deflate(6),
        Compression::Gzip(6),
        Compression::Zlib(6),
    ] {
        let mut ser = Serializer::new(compression).unwrap();
        ser.serialize_struct("Struct", 3).unwrap();
        ser.serialize_field("a", &Value::U8(1)).unwrap();
        ser.serialize_field("b", &Value::Char('a')).unwrap();
        ser.serialize_field("c", &Value::Str(b"Hello World!".to_vec()))
            .unwrap();
        let bytes = ser.finish().unwrap();
        let decoded: Value = from_slice(&bytes).unwrap();
        assert_eq!(decoded, expected);
    }
}

#[test]
fn test_enum_deserialization() {
    deserialization_test(Value::UnitVariant(0));
    deserialization_test(Value::NewtypeVariant(1, Box::new(Value::U8(1))));
    deserialization_test(Value::TupleVariant(
        2,
        vec![
            Value::U8(1),
            Value::Char('a'),
            Value::Str(b"Hello World!".to_vec()),
        ],
    ));
    deserialization_test(Value::StructVariant(
        3,
        vec![
            (Value::Str(b"a".to_vec()), Value::U8(1)),
            (Value::Str(b"b".to_vec()), Value::Char('a')),
            (Value::Str(b"c".to_vec()), Value::Str(b"Hello World!".to_vec())),
        ],
    ));
}

#[test]
fn test_option_deserialization() {
    deserialization_test(Value::Null);
    deserialization_test(Value::U8(1));
}

#[test]
fn test_nested_composite_round_trip() {
    deserialization_test(Value::Mapping(vec![
        (
            Value::Str(b"outer".to_vec()),
            Value::Sequence(vec![
                Value::Mapping(vec![(Value::U8(1), Value::Bool(true))]),
                Value::Tuple(vec![Value::Null, Value::Bytes(vec![0, 255])]),
                Value::NewtypeVariant(7, Box::new(Value::Sequence(vec![]))),
            ]),
        ),
        (Value::UnitVariant(4), Value::Str(Vec::new())),
    ]));
}

#[test]
fn test_empty_composites_round_trip() {
    deserialization_test(Value::Sequence(vec![]));
    deserialization_test(Value::Tuple(vec![]));
    deserialization_test(Value::Mapping(vec![]));
    deserialization_test(Value::Str(Vec::new()));
    deserialization_test(Value::Bytes(Vec::new()));
}

#[test]
fn test_extreme_integers_round_trip() {
    deserialization_test(Value::I8(i8::MIN));
    deserialization_test(Value::I16(i16::MIN));
    deserialization_test(Value::I32(i32::MIN));
    deserialization_test(Value::I64(i64::MIN));
    deserialization_test(Value::U8(u8::MAX));
    deserialization_test(Value::U16(u16::MAX));
    deserialization_test(Value::U32(u32::MAX));
    deserialization_test(Value::U64(u64::MAX));
}
