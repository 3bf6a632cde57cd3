use cbor_codec::de::basic::BasicDeserializer;
use cbor_codec::de::complex::ComplexDeserializer;
use cbor_codec::item::Item;
use cbor_codec::ser::basic::BasicSerializer;
use cbor_codec::ser::complex::ComplexSerializer;

fn round_trip(items: &[Item]) -> Vec<Item> {
    let mut encoder = ComplexSerializer::new(BasicSerializer::new());
    for item in items {
        encoder.serialize_item(item).unwrap();
    }
    assert!(encoder.is_complete());
    let bytes = encoder.flush();
    let mut decoder = ComplexDeserializer::new(BasicDeserializer::new(bytes));
    let mut read = Vec::new();
    for _ in items {
        read.push(decoder.next_item().unwrap());
    }
    assert_eq!(decoder.remaining(), 0);
    assert!(decoder.is_complete());
    read
}

#[test]
fn every_scalar_is_read_back_as_written() {
    let boundaries: &[u64] = &[0, 1, 23, 24, 255, 256, 65535, 65536, 4294967295, 4294967296, u64::MAX];
    for &n in boundaries {
        let mut encoder = BasicSerializer::new();
        encoder.serialize_item(&Item::Unsigned(n)).unwrap();
        encoder.serialize_item(&Item::Negative(n)).unwrap();
        let mut decoder = BasicDeserializer::new(encoder.flush());
        assert_eq!(decoder.next_item().unwrap(), Item::Unsigned(n));
        assert_eq!(decoder.next_item().unwrap(), Item::Negative(n));
        assert!(decoder.is_at_end());
    }
    let scalars = vec![
        Item::Bytes(vec![]),
        Item::Bytes(vec![0xFF; 300]),
        Item::Text(String::new()),
        Item::Text("gr\u{00fc}\u{00df}e \u{6c34} \u{1F600}".to_string()),
        Item::Bool(false),
        Item::Bool(true),
        Item::Null,
        Item::Undefined,
        Item::Float16(0x7E00),
        Item::Float32(0xFF800000),
        Item::Float64(0x0000000000000001),
    ];
    assert_eq!(round_trip(&scalars), scalars);
}

#[test]
fn signed_integers_are_read_back_as_written() {
    let values: &[i64] = &[0, -1, 1, -24, -25, 127, -128, 128, -129, 32767, -32768, i64::MAX, i64::MIN];
    let mut encoder = BasicSerializer::new();
    for &v in values {
        encoder.serialize_i64(v).unwrap();
    }
    let mut decoder = BasicDeserializer::new(encoder.flush());
    for &v in values {
        assert_eq!(decoder.deserialize_i64().unwrap(), v);
    }
    assert!(decoder.is_at_end());
}

#[test]
fn a_nested_value_is_read_back_as_written() {
    let items = vec![
        Item::MapStart(Some(2)),
        Item::Text("list".to_string()),
        Item::ArrayStart(None),
        Item::Unsigned(1),
        Item::ArrayStart(Some(2)),
        Item::Negative(0),
        Item::Tag(2),
        Item::Bytes(vec![1, 0]),
        Item::Break,
        Item::MapStart(None),
        Item::Unsigned(1),
        Item::Null,
        Item::Break,
        Item::Break,
        Item::Text("empty".to_string()),
        Item::ArrayStart(Some(0)),
        Item::Break,
        Item::Break,
    ];
    assert_eq!(round_trip(&items), items);
}

#[test]
fn several_values_in_one_stream() {
    let items = vec![
        Item::Unsigned(1),
        Item::ArrayStart(Some(1)),
        Item::Unsigned(2),
        Item::Break,
        Item::Text("three".to_string()),
    ];
    assert_eq!(round_trip(&items), items);
}

#[test]
fn typed_values_are_read_back_as_written() {
    let mut encoder = BasicSerializer::new();
    encoder.serialize_bool(true).unwrap();
    encoder.serialize_u8(200).unwrap();
    encoder.serialize_i16(-300).unwrap();
    encoder.serialize_char('\u{00df}').unwrap();
    encoder.serialize_str("text").unwrap();
    encoder.serialize_bytes(&[9, 8, 7]).unwrap();
    encoder.serialize_none().unwrap();
    encoder.serialize_unit().unwrap();
    encoder.serialize_u64(u64::MAX).unwrap();
    let mut decoder = BasicDeserializer::new(encoder.flush());
    assert_eq!(decoder.deserialize_bool().unwrap(), true);
    assert_eq!(decoder.deserialize_u8().unwrap(), 200);
    assert_eq!(decoder.deserialize_i16().unwrap(), -300);
    assert_eq!(decoder.deserialize_char().unwrap(), '\u{00df}');
    assert_eq!(decoder.deserialize_str().unwrap(), "text");
    assert_eq!(decoder.deserialize_bytes().unwrap(), vec![9, 8, 7]);
    assert_eq!(decoder.deserialize_option().unwrap(), false);
    decoder.deserialize_unit().unwrap();
    assert_eq!(decoder.deserialize_u64().unwrap(), u64::MAX);
    assert!(decoder.is_at_end());
}
