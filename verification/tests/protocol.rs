use sbif::de::{from_slice, Deserializer, SeqAccess};
use sbif::se::{to_bytes, Serializer};
use sbif::value::Value;
use sbif::{Compression, Error, ExpectedId, FileHeader};
use sbif::data_ids;

fn plain_stream(value: &Value) -> Vec<u8> {
    to_bytes(value, Compression::Plain).unwrap()
}

#[test]
fn test_header_magic_rejection() {
    // A stream whose first bytes do not spell the magic fails with a
    // header-mismatch error that carries what was found.
    let mut bytes = plain_stream(&Value::Null);
    bytes[2] = b'X';
    match from_slice(&bytes) {
        Err(Error::InvalidHeader(found)) => assert_eq!(found, b"XBIF".to_vec()),
        other => panic!("expected InvalidHeader, got {:?}", other),
    }
}

#[test]
fn test_header_version_rejection() {
    let mut bytes = plain_stream(&Value::Null);
    bytes[6] = 9;
    match from_slice(&bytes) {
        Err(Error::InvalidVersion { expected, found }) => {
            assert_eq!(expected, 1);
            assert_eq!(found, 9);
        },
        other => panic!("expected InvalidVersion, got {:?}", other),
    }
}

#[test]
fn test_header_compression_rejection() {
    let mut bytes = plain_stream(&Value::Null);
    bytes[7] = 9;
    match from_slice(&bytes) {
        Err(Error::InvalidCompression(found)) => assert_eq!(found, 9),
        other => panic!("expected InvalidCompression, got {:?}", other),
    }
}

#[test]
fn test_header_invalid_utf8_magic() {
    let mut bytes = plain_stream(&Value::Null);
    bytes[2] = 0xff;
    assert!(matches!(from_slice(&bytes), Err(Error::FromUtf8Error)));
}

#[test]
fn test_header_read_rejects_magic() {
    // The header read itself rejects a wrong magic, before the version
    // and compression bytes are even looked at.
    let mut bytes = FileHeader::new(Compression::Plain).to_bytes().unwrap();
    bytes[2] = b'X';
    match FileHeader::from_reader(&bytes) {
        Err(Error::InvalidHeader(found)) => assert_eq!(found, b"XBIF".to_vec()),
        other => panic!("expected InvalidHeader, got {:?}", other),
    }
    // With only the length prefix and name present, the name is still
    // what is judged.
    bytes.truncate(6);
    match FileHeader::from_reader(&bytes) {
        Err(Error::InvalidHeader(found)) => assert_eq!(found, b"XBIF".to_vec()),
        other => panic!("expected InvalidHeader, got {:?}", other),
    }
}

#[test]
fn test_header_read_rejects_version() {
    // The header read itself rejects an unsupported version, before the
    // compression byte is looked at.
    let mut bytes = FileHeader::new(Compression::Plain).to_bytes().unwrap();
    bytes[6] = 2;
    match FileHeader::from_reader(&bytes) {
        Err(Error::InvalidVersion { expected, found }) => {
            assert_eq!(expected, 1);
            assert_eq!(found, 2);
        },
        other => panic!("expected InvalidVersion, got {:?}", other),
    }
}

#[test]
fn test_header_magic_checked_before_kind() {
    // When both the magic and the compression kind are wrong, the magic
    // mismatch is reported: the read checks fields in stream order.
    let mut bytes = plain_stream(&Value::Null);
    bytes[2] = b'X';
    bytes[7] = 9;
    assert!(matches!(from_slice(&bytes), Err(Error::InvalidHeader(_))));
}

#[test]
fn test_header_round_trip() {
    let header = FileHeader::new(Compression::Gzip(6));
    let bytes = header.to_bytes().unwrap();
    let (parsed, used) = FileHeader::from_reader(&bytes).unwrap();
    assert_eq!(used, bytes.len());
    assert_eq!(parsed.compression, Compression::Gzip(6));
    assert_eq!(parsed.version, 1);
    assert_eq!(parsed.header_name, b"SBIF".to_vec());
}

#[test]
fn test_tuple_arity_mismatch() {
    // Decoding a 2-element tuple while expecting arity 3 fails with the
    // exact length mismatch, not a coercion.
    let bytes = plain_stream(&Value::Tuple(vec![Value::U8(1), Value::U8(2)]));
    let mut de = Deserializer::new(&bytes).unwrap();
    match de.deserialize_tuple(3) {
        Err(Error::InvalidLength { expected, actual }) => {
            assert_eq!(expected, 3);
            assert_eq!(actual, 2);
        },
        other => panic!("expected InvalidLength, got {:?}", other),
    }
}

#[test]
fn test_tuple_arity_match() {
    let bytes = plain_stream(&Value::Tuple(vec![Value::U8(1), Value::U8(2)]));
    let mut de = Deserializer::new(&bytes).unwrap();
    let elems = de.deserialize_tuple(2).unwrap();
    assert_eq!(elems, vec![Value::U8(1), Value::U8(2)]);
}

#[test]
fn test_map_alternation_violation() {
    // Two consecutive "next value" requests without an intervening
    // "next key" break the strictly alternating protocol.
    let bytes = plain_stream(&Value::Mapping(vec![
        (Value::U8(1), Value::U8(2)),
        (Value::U8(3), Value::U8(4)),
    ]));
    let mut de = Deserializer::new(&bytes).unwrap();
    let mut access = de.deserialize_map().unwrap();
    let key = access.next_key(&mut de).unwrap();
    assert_eq!(key, Some(Value::U8(1)));
    let value = access.next_value(&mut de).unwrap();
    assert_eq!(value, Value::U8(2));
    assert!(matches!(
        access.next_value(&mut de),
        Err(Error::InvalidMapAccess)
    ));
}

#[test]
fn test_map_value_before_key() {
    let bytes = plain_stream(&Value::Mapping(vec![(Value::U8(1), Value::U8(2))]));
    let mut de = Deserializer::new(&bytes).unwrap();
    let mut access = de.deserialize_map().unwrap();
    assert!(matches!(
        access.next_value(&mut de),
        Err(Error::InvalidMapAccess)
    ));
}

#[test]
fn test_map_two_keys_in_a_row() {
    let bytes = plain_stream(&Value::Mapping(vec![
        (Value::U8(1), Value::U8(2)),
        (Value::U8(3), Value::U8(4)),
    ]));
    let mut de = Deserializer::new(&bytes).unwrap();
    let mut access = de.deserialize_map().unwrap();
    let _ = access.next_key(&mut de).unwrap();
    assert!(matches!(
        access.next_key(&mut de),
        Err(Error::InvalidMapAccess)
    ));
}

#[test]
fn test_map_full_walk() {
    let bytes = plain_stream(&Value::Mapping(vec![
        (Value::U8(1), Value::U8(2)),
        (Value::U8(3), Value::U8(4)),
    ]));
    let mut de = Deserializer::new(&bytes).unwrap();
    let mut access = de.deserialize_map().unwrap();
    assert_eq!(access.next_key(&mut de).unwrap(), Some(Value::U8(1)));
    assert_eq!(access.next_value(&mut de).unwrap(), Value::U8(2));
    assert_eq!(access.next_key(&mut de).unwrap(), Some(Value::U8(3)));
    assert_eq!(access.next_value(&mut de).unwrap(), Value::U8(4));
    assert_eq!(access.next_key(&mut de).unwrap(), None);
}

#[test]
fn test_compression_opacity() {
    // For one value the four settings produce pairwise different bytes,
    // yet all four decode to the identical logical value.
    let value = Value::Str(b"the same value under four transports".to_vec());
    let streams = [
        to_bytes(&value, Compression::Plain).unwrap(),
        to_bytes(&value, Compression::Deflate(6)).unwrap(),
        to_bytes(&value, Compression::Gzip(6)).unwrap(),
        to_bytes(&value, Compression::Zlib(6)).unwrap(),
    ];
    for i in 0..streams.len() {
        for j in 0..streams.len() {
            if i != j {
                assert_ne!(streams[i], streams[j]);
            }
        }
        assert_eq!(from_slice(&streams[i]).unwrap(), value);
    }
}

#[test]
fn test_length_required() {
    let mut ser = Serializer::new(Compression::Plain).unwrap();
    assert!(matches!(ser.serialize_seq(None), Err(Error::LengthRequired)));
    assert!(matches!(ser.serialize_map(None), Err(Error::LengthRequired)));
}

#[test]
fn test_streamed_composite_equals_whole_value() {
    // Driving the serializer node by node gives the same stream as
    // encoding the equivalent value in one call.
    let mut ser = Serializer::new(Compression::Plain).unwrap();
    ser.serialize_seq(Some(3)).unwrap();
    ser.serialize_element(&Value::U8(1)).unwrap();
    ser.serialize_element(&Value::Bool(false)).unwrap();
    ser.serialize_element(&Value::Null).unwrap();
    let streamed = ser.finish().unwrap();
    let whole = plain_stream(&Value::Sequence(vec![
        Value::U8(1),
        Value::Bool(false),
        Value::Null,
    ]));
    assert_eq!(streamed, whole);
}

#[test]
fn test_shape_directed_primitives() {
    // Several values written back to back; each is asked for with its
    // exact expected shape.
    let mut bytes = FileHeader::new(Compression::Plain).to_bytes().unwrap();
    for v in [
        Value::Bool(true),
        Value::U16(513),
        Value::Char('\u{a9}'),
        Value::Str(b"hi".to_vec()),
        Value::I64(-2),
    ] {
        let stream = plain_stream(&v);
        bytes.extend_from_slice(&stream[8..]);
    }
    let mut de = Deserializer::new(&bytes).unwrap();
    assert!(de.deserialize_bool().unwrap());
    assert_eq!(de.deserialize_u16().unwrap(), 513);
    assert_eq!(de.deserialize_char().unwrap(), '\u{a9}');
    assert_eq!(de.deserialize_str().unwrap(), b"hi".to_vec());
    assert_eq!(de.deserialize_i64().unwrap(), -2);
}

#[test]
fn test_seq_access_steps() {
    // Element-by-element reading through the sequence step protocol; the
    // decoder is positioned at the first element.
    let mut bytes = FileHeader::new(Compression::Plain).to_bytes().unwrap();
    for v in [Value::U8(1), Value::Bool(false), Value::Null] {
        let stream = plain_stream(&v);
        bytes.extend_from_slice(&stream[8..]);
    }
    let mut de = Deserializer::new(&bytes).unwrap();
    let mut access = SeqAccess::new(3);
    assert_eq!(access.size_hint(), Some(3));
    assert_eq!(access.next_element(&mut de).unwrap(), Some(Value::U8(1)));
    assert_eq!(
        access.next_element(&mut de).unwrap(),
        Some(Value::Bool(false))
    );
    assert_eq!(access.next_element(&mut de).unwrap(), Some(Value::Null));
    assert_eq!(access.size_hint(), Some(0));
    assert_eq!(access.next_element(&mut de).unwrap(), None);
}

#[test]
fn test_read_id() {
    let bytes = plain_stream(&Value::Null);
    let mut de = Deserializer::new(&bytes).unwrap();
    de.read_id(data_ids::NULL_ID).unwrap();

    let bytes = plain_stream(&Value::U8(3));
    let mut de = Deserializer::new(&bytes).unwrap();
    match de.read_id(data_ids::BOOL_ID) {
        Err(Error::InvalidDataId { expected, found }) => {
            assert_eq!(expected, ExpectedId::Exact(data_ids::BOOL_ID));
            assert_eq!(found, data_ids::U8_ID);
        },
        other => panic!("expected InvalidDataId, got {:?}", other),
    }
}

#[test]
fn test_tag_mismatch_error() {
    let bytes = plain_stream(&Value::U8(7));
    let mut de = Deserializer::new(&bytes).unwrap();
    match de.deserialize_bool() {
        Err(Error::InvalidDataId { expected, found }) => {
            assert_eq!(expected, ExpectedId::Exact(data_ids::BOOL_ID));
            assert_eq!(found, data_ids::U8_ID);
        },
        other => panic!("expected InvalidDataId, got {:?}", other),
    }
}

#[test]
fn test_truncated_stream() {
    let mut bytes = plain_stream(&Value::U32(7));
    bytes.truncate(bytes.len() - 2);
    assert!(matches!(from_slice(&bytes), Err(Error::UnexpectedEof)));
}

#[test]
fn test_invalid_utf8_string_payload() {
    // A string payload that is not valid UTF-8 is rejected.
    let mut bytes = FileHeader::new(Compression::Plain).to_bytes().unwrap();
    bytes.extend_from_slice(&[data_ids::STR_ID, 0, 0, 0, 1, 0xff]);
    assert!(matches!(from_slice(&bytes), Err(Error::FromUtf8Error)));
}

#[test]
fn test_unknown_tag() {
    let mut bytes = FileHeader::new(Compression::Plain).to_bytes().unwrap();
    bytes.push(200);
    match from_slice(&bytes) {
        Err(Error::InvalidDataId { expected, found }) => {
            assert_eq!(expected, ExpectedId::AnyValue);
            assert_eq!(found, 200);
        },
        other => panic!("expected InvalidDataId, got {:?}", other),
    }
}

#[test]
fn test_enum_access_shapes() {
    let bytes = plain_stream(&Value::TupleVariant(5, vec![Value::U8(1), Value::U8(2)]));
    let mut de = Deserializer::new(&bytes).unwrap();
    let access = de.deserialize_enum().unwrap();
    assert_eq!(access.variant_index, 5);
    // Unit-style access to a data-carrying variant is a shape misuse.
    assert!(matches!(access.unit_variant(), Err(Error::UnexpectedString)));

    let mut de = Deserializer::new(&bytes).unwrap();
    let access = de.deserialize_enum().unwrap();
    let payload = access.tuple_variant(&mut de, 2).unwrap();
    assert_eq!(payload, vec![Value::U8(1), Value::U8(2)]);

    let mut de = Deserializer::new(&bytes).unwrap();
    let access = de.deserialize_enum().unwrap();
    assert!(matches!(
        access.tuple_variant(&mut de, 3),
        Err(Error::InvalidLength { expected: 3, actual: 2 })
    ));
}

#[test]
fn test_enum_access_unit_and_newtype() {
    let bytes = plain_stream(&Value::UnitVariant(9));
    let mut de = Deserializer::new(&bytes).unwrap();
    let access = de.deserialize_enum().unwrap();
    assert_eq!(access.variant_index, 9);
    access.unit_variant().unwrap();

    let bytes = plain_stream(&Value::NewtypeVariant(3, Box::new(Value::Bool(true))));
    let mut de = Deserializer::new(&bytes).unwrap();
    let access = de.deserialize_enum().unwrap();
    assert_eq!(access.variant_index, 3);
    assert_eq!(access.newtype_variant(&mut de).unwrap(), Value::Bool(true));
}

#[test]
fn test_option_shape_directed() {
    let bytes = plain_stream(&Value::Null);
    let mut de = Deserializer::new(&bytes).unwrap();
    assert_eq!(de.deserialize_option().unwrap(), None);

    let bytes = plain_stream(&Value::U8(1));
    let mut de = Deserializer::new(&bytes).unwrap();
    assert_eq!(de.deserialize_option().unwrap(), Some(Value::U8(1)));
}
