use sbif::se::{to_bytes, Serializer};
use sbif::value::Value;
use sbif::{Compression, FileHeader};
use sbif::data_ids;

fn no_compression_serialization_test(value: &Value) -> Vec<u8> {
    let compression = Compression::Plain;
    let default_hdr_bytes = FileHeader::new(compression).to_bytes().unwrap();
    let serialized = to_bytes(value, compression).unwrap();
    assert!(serialized.len() >= default_hdr_bytes.len());
    assert_eq!(&serialized[0..8], default_hdr_bytes.as_slice());

    (&serialized[8..]).to_vec()
}

fn body_of(serialized: &[u8]) -> Vec<u8> {
    let default_hdr_bytes = FileHeader::new(Compression::Plain).to_bytes().unwrap();
    assert_eq!(&serialized[0..8], default_hdr_bytes.as_slice());
    (&serialized[8..]).to_vec()
}

#[test]
fn test_bool_serialization() {
    let test = no_compression_serialization_test(&Value::Bool(true));
    assert_eq!(test.as_slice(), &[data_ids::BOOL_ID, 1]);
    let test = no_compression_serialization_test(&Value::Bool(false));
    assert_eq!(test.as_slice(), &[data_ids::BOOL_ID, 0]);
}

#[test]
fn test_integer_serialization() {
    let test = no_compression_serialization_test(&Value::U8(1));
    assert_eq!(test.as_slice(), &[data_ids::U8_ID, 1]);
    let test = no_compression_serialization_test(&Value::U16(1));
    assert_eq!(test.as_slice(), &[data_ids::U16_ID, 0, 1]);
    let test = no_compression_serialization_test(&Value::U32(1));
    assert_eq!(test.as_slice(), &[data_ids::U32_ID, 0, 0, 0, 1]);
    let test = no_compression_serialization_test(&Value::U64(1));
    assert_eq!(test.as_slice(), &[data_ids::U64_ID, 0, 0, 0, 0, 0, 0, 0, 1]);

    let test = no_compression_serialization_test(&Value::I8(1));
    assert_eq!(test.as_slice(), &[data_ids::I8_ID, 1]);
    let test = no_compression_serialization_test(&Value::I16(1));
    assert_eq!(test.as_slice(), &[data_ids::I16_ID, 0, 1]);
    let test = no_compression_serialization_test(&Value::I32(1));
    assert_eq!(test.as_slice(), &[data_ids::I32_ID, 0, 0, 0, 1]);
    let test = no_compression_serialization_test(&Value::I64(1));
    assert_eq!(test.as_slice(), &[data_ids::I64_ID, 0, 0, 0, 0, 0, 0, 0, 1]);
}

#[test]
fn test_float_serialization() {
    let test = no_compression_serialization_test(&Value::F32Bits(1_f32.to_bits()));
    assert_eq!(test.as_slice(), &[data_ids::F32_ID, 63, 128, 0, 0]);
    let test = no_compression_serialization_test(&Value::F64Bits(1_f64.to_bits()));
    assert_eq!(
        test.as_slice(),
        &[data_ids::F64_ID, 63, 240, 0, 0, 0, 0, 0, 0]
    );
}

#[test]
fn test_char_serialization() {
    let test = no_compression_serialization_test(&Value::Char('a'));
    assert_eq!(test.as_slice(), &[data_ids::CHAR_ID, 97]);
}

#[test]
fn test_string_serialization() {
    let test = no_compression_serialization_test(&Value::Str(b"hello world".to_vec()));
    assert_eq!(
        test.as_slice(),
        &[
            data_ids::STR_ID,
            0,
            0,
            0,
            11,
            104,
            101,
            108,
            108,
            111,
            32,
            119,
            111,
            114,
            108,
            100
        ]
    );
}

#[test]
fn test_null_serialization() {
    let test = no_compression_serialization_test(&Value::Null);
    assert_eq!(test.as_slice(), &[data_ids::NULL_ID]);

    let mut ser = Serializer::new(Compression::Plain).unwrap();
    ser.serialize_unit().unwrap();
    let test = body_of(&ser.finish().unwrap());
    assert_eq!(test.as_slice(), &[data_ids::NULL_ID]);

    let mut ser = Serializer::new(Compression::Plain).unwrap();
    ser.serialize_unit_struct("UnitStruct").unwrap();
    let test = body_of(&ser.finish().unwrap());
    assert_eq!(test.as_slice(), &[data_ids::NULL_ID]);
}

#[test]
fn test_enum_serialization() {
    let test = no_compression_serialization_test(&Value::UnitVariant(0));
    assert_eq!(test.as_slice(), &[data_ids::UNIT_VARIANT_ID, 0, 0, 0, 0]);
    let test = no_compression_serialization_test(&Value::NewtypeVariant(
        1,
        Box::new(Value::U8(1)),
    ));
    assert_eq!(
        test.as_slice(),
        &[data_ids::NEWTYPE_VARIANT_ID, 0, 0, 0, 1, data_ids::U8_ID, 1]
    );
    let test = no_compression_serialization_test(&Value::TupleVariant(
        2,
        vec![Value::U8(1), Value::U8(2)],
    ));
    assert_eq!(
        test.as_slice(),
        &[
            data_ids::TUPLE_VARIANT_ID,
            0,
            0,
            0,
            2,
            0,
            0,
            0,
            2,
            data_ids::U8_ID,
            1,
            data_ids::U8_ID,
            2
        ]
    );
    let test = no_compression_serialization_test(&Value::StructVariant(
        3,
        vec![
            (Value::Str(b"a".to_vec()), Value::U8(1)),
            (Value::Str(b"b".to_vec()), Value::U8(2)),
        ],
    ));
    assert_eq!(
        test.as_slice(),
        &[
            data_ids::STRUCT_VARIANT_ID,
            0,
            0,
            0,
            3, // variant index
            0,
            0,
            0,
            2, // length
            data_ids::STR_ID,
            0,
            0,
            0,
            1,
            97,
            data_ids::U8_ID,
            1, // a
            data_ids::STR_ID,
            0,
            0,
            0,
            1,
            98,
            data_ids::U8_ID,
            2 // b
        ]
    );
}

#[test]
fn test_newtype_struct_serialization() {
    let mut ser = Serializer::new(Compression::Plain).unwrap();
    ser.serialize_newtype_struct("NewtypeTest", &Value::U8(1)).unwrap();
    let test = body_of(&ser.finish().unwrap());
    assert_eq!(test.as_slice(), &[data_ids::U8_ID, 1]);
}

#[test]
fn test_tuple_struct_serialization() {
    let test = no_compression_serialization_test(&Value::TupleStruct(vec![
        Value::U8(1),
        Value::U8(2),
    ]));
    assert_eq!(
        test.as_slice(),
        &[
            data_ids::TUPLE_STRUCT_ID,
            0,
            0,
            0,
            2,
            data_ids::U8_ID,
            1,
            data_ids::U8_ID,
            2
        ]
    );
}

#[test]
fn test_struct_serialization() {
    let mut ser = Serializer::new(Compression::Plain).unwrap();
    ser.serialize_struct("StructTest", 2).unwrap();
    ser.serialize_field("a", &Value::U8(1)).unwrap();
    ser.serialize_field("b", &Value::U8(2)).unwrap();
    let test = body_of(&ser.finish().unwrap());
    assert_eq!(
        test.as_slice(),
        &[
            data_ids::MAP_ID,
            0,
            0,
            0,
            2, // length
            data_ids::STR_ID,
            0,
            0,
            0,
            1,
            97,
            data_ids::U8_ID,
            1, // a
            data_ids::STR_ID,
            0,
            0,
            0,
            1,
            98,
            data_ids::U8_ID,
            2 // b
        ]
    );
}

#[test]
fn test_map_serialization() {
    let map = Value::Mapping(vec![
        (Value::U8(1), Value::U8(2)),
        (Value::U8(3), Value::U8(4)),
    ]);

    let test = no_compression_serialization_test(&map);
    assert_eq!(&test[..5], &[data_ids::MAP_ID, 0, 0, 0, 2]);

    let mut slices = Vec::new();
    for i in 0..(test.len() - 5) / 4 {
        slices.push(&test[5 + i * 4..5 + (i + 1) * 4]);
    }

    slices.sort_by(|a, b| a[1].cmp(&b[1]));
    assert_eq!(slices.len(), 2);
    assert_eq!(slices[0], &[data_ids::U8_ID, 1, data_ids::U8_ID, 2]);
    assert_eq!(slices[1], &[data_ids::U8_ID, 3, data_ids::U8_ID, 4]);
}

#[test]
fn test_option_serialization() {
    let test = no_compression_serialization_test(&Value::Null);
    assert_eq!(test.as_slice(), &[data_ids::NULL_ID]);
    let test = no_compression_serialization_test(&Value::U8(1));
    assert_eq!(test.as_slice(), &[data_ids::U8_ID, 1]);
}
