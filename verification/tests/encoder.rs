use cbor_codec::argument::{calculate_argument_placement, ArgumentPlacement};
use cbor_codec::common::MajorType;
use cbor_codec::error::EncodeError;
use cbor_codec::item::Item;
use cbor_codec::ser::basic::BasicSerializer;
use cbor_codec::ser::complex::ComplexSerializer;

fn bytes_of_u64(value: u64) -> Vec<u8> {
    let mut serializer = BasicSerializer::new();
    serializer.serialize_u64(value).unwrap();
    serializer.flush()
}

fn bytes_of_i64(value: i64) -> Vec<u8> {
    let mut serializer = BasicSerializer::new();
    serializer.serialize_i64(value).unwrap();
    serializer.flush()
}

#[test]
fn placement_boundaries_are_inclusive() {
    let cases: &[(u64, ArgumentPlacement)] = &[
        (0, ArgumentPlacement::AdditionalInformation),
        (23, ArgumentPlacement::AdditionalInformation),
        (24, ArgumentPlacement::NextByte),
        (255, ArgumentPlacement::NextByte),
        (256, ArgumentPlacement::NextTwoBytes),
        (65535, ArgumentPlacement::NextTwoBytes),
        (65536, ArgumentPlacement::NextFourBytes),
        (4294967295, ArgumentPlacement::NextFourBytes),
        (4294967296, ArgumentPlacement::NextEightBytes),
        (u64::MAX, ArgumentPlacement::NextEightBytes),
    ];
    for (magnitude, placement) in cases {
        assert_eq!(calculate_argument_placement(*magnitude).unwrap(), *placement);
    }
}

#[test]
fn placement_widths() {
    assert_eq!(ArgumentPlacement::AdditionalInformation.width(), 0);
    assert_eq!(ArgumentPlacement::NextByte.width(), 1);
    assert_eq!(ArgumentPlacement::NextTwoBytes.width(), 2);
    assert_eq!(ArgumentPlacement::NextFourBytes.width(), 4);
    assert_eq!(ArgumentPlacement::NextEightBytes.width(), 8);
}

#[test]
fn minimality_at_the_boundaries() {
    assert_eq!(bytes_of_u64(23), vec![0x17]);
    assert_eq!(bytes_of_u64(24), vec![0x18, 0x18]);
    assert_eq!(bytes_of_u64(255), vec![0x18, 0xFF]);
    assert_eq!(bytes_of_u64(256), vec![0x19, 0x01, 0x00]);
    assert_eq!(bytes_of_u64(65535), vec![0x19, 0xFF, 0xFF]);
    assert_eq!(bytes_of_u64(65536), vec![0x1A, 0x00, 0x01, 0x00, 0x00]);
    assert_eq!(bytes_of_u64(4294967295), vec![0x1A, 0xFF, 0xFF, 0xFF, 0xFF]);
    assert_eq!(
        bytes_of_u64(4294967296),
        vec![0x1B, 0x00, 0x00, 0x00, 0x01, 0x00, 0x00, 0x00, 0x00]
    );
    assert_eq!(
        bytes_of_u64(u64::MAX),
        vec![0x1B, 0xFF, 0xFF, 0xFF, 0xFF, 0xFF, 0xFF, 0xFF, 0xFF]
    );
}

#[test]
fn sign_folding() {
    assert_eq!(bytes_of_i64(-1), vec![0x20]);
    assert_eq!(bytes_of_i64(-24), vec![0x37]);
    assert_eq!(bytes_of_i64(-25), vec![0x38, 0x18]);
    assert_eq!(bytes_of_i64(0), vec![0x00]);
    assert_eq!(bytes_of_i64(25), vec![0x18, 0x19]);
    assert_eq!(bytes_of_i64(-256), vec![0x38, 0xFF]);
    assert_eq!(bytes_of_i64(-257), vec![0x39, 0x01, 0x00]);
    assert_eq!(
        bytes_of_i64(i64::MIN),
        vec![0x3B, 0x7F, 0xFF, 0xFF, 0xFF, 0xFF, 0xFF, 0xFF, 0xFF]
    );
}

#[test]
fn narrow_signed_integers() {
    let mut serializer = BasicSerializer::new();
    serializer.serialize_i8(-1).unwrap();
    serializer.serialize_i16(-1000).unwrap();
    serializer.serialize_i32(100000).unwrap();
    assert_eq!(
        serializer.flush(),
        vec![0x20, 0x39, 0x03, 0xE7, 0x1A, 0x00, 0x01, 0x86, 0xA0]
    );
}

#[test]
fn wide_integers_within_range() {
    let mut serializer = BasicSerializer::new();
    serializer.serialize_u128(u64::MAX as u128).unwrap();
    serializer.serialize_i128(-(1i128 << 64)).unwrap();
    serializer.serialize_i128(-1).unwrap();
    assert_eq!(
        serializer.flush(),
        vec![
            0x1B, 0xFF, 0xFF, 0xFF, 0xFF, 0xFF, 0xFF, 0xFF, 0xFF, 0x3B, 0xFF, 0xFF, 0xFF, 0xFF,
            0xFF, 0xFF, 0xFF, 0xFF, 0x20
        ]
    );
}

#[test]
fn failure_atomicity_of_wide_magnitudes() {
    let mut serializer = BasicSerializer::new();
    serializer.serialize_u8(1).unwrap();
    assert!(matches!(
        serializer.serialize_u128(1u128 << 64),
        Err(EncodeError::LengthOutOfBounds)
    ));
    assert!(matches!(
        serializer.serialize_i128(1i128 << 64),
        Err(EncodeError::LengthOutOfBounds)
    ));
    assert!(matches!(
        serializer.serialize_i128(-(1i128 << 64) - 1),
        Err(EncodeError::LengthOutOfBounds)
    ));
    assert!(matches!(
        serializer.serialize_u128(u128::MAX),
        Err(EncodeError::LengthOutOfBounds)
    ));
    assert_eq!(serializer.pending_len(), 1);
    assert_eq!(serializer.flush(), vec![0x01]);
    assert!(matches!(
        Item::from_u128(1u128 << 64),
        Err(EncodeError::LengthOutOfBounds)
    ));
    assert!(matches!(
        Item::from_i128(i128::MIN),
        Err(EncodeError::LengthOutOfBounds)
    ));
}

#[test]
fn items_of_integers() {
    assert_eq!(Item::from_i64(-1), Item::Negative(0));
    assert_eq!(Item::from_i64(-25), Item::Negative(24));
    assert_eq!(Item::from_i64(7), Item::Unsigned(7));
    assert_eq!(Item::from_i64(i64::MIN), Item::Negative(i64::MAX as u64));
    assert_eq!(Item::from_i128(-(1i128 << 64)).unwrap(), Item::Negative(u64::MAX));
    assert_eq!(Item::from_u128(u64::MAX as u128).unwrap(), Item::Unsigned(u64::MAX));
}

#[test]
fn simple_values() {
    let mut serializer = BasicSerializer::new();
    serializer.serialize_bool(false).unwrap();
    serializer.serialize_bool(true).unwrap();
    serializer.serialize_unit().unwrap();
    serializer.serialize_none().unwrap();
    serializer.serialize_unit_struct("Marker").unwrap();
    serializer.serialize_break().unwrap();
    assert_eq!(serializer.flush(), vec![0xF4, 0xF5, 0xF6, 0xF7, 0xF6, 0xFF]);
}

#[test]
fn string_framing() {
    let mut serializer = BasicSerializer::new();
    serializer.serialize_bytes(&[1, 2, 3]).unwrap();
    serializer.serialize_bytes(&[]).unwrap();
    serializer.serialize_str("a").unwrap();
    serializer.serialize_str("IETF").unwrap();
    assert_eq!(
        serializer.flush(),
        vec![0x43, 0x01, 0x02, 0x03, 0x40, 0x61, 0x61, 0x64, 0x49, 0x45, 0x54, 0x46]
    );
    for length in [0usize, 23, 24, 255, 256, 65535, 65536] {
        let payload = vec![0xABu8; length];
        let mut serializer = BasicSerializer::new();
        serializer.serialize_bytes(&payload).unwrap();
        let string = serializer.flush();
        let number = bytes_of_u64(length as u64);
        assert_eq!(string.len(), number.len() + length);
        assert_eq!(string[0], number[0] | 0x40);
        assert_eq!(&string[1..number.len()], &number[1..]);
        assert_eq!(&string[number.len()..], payload.as_slice());
    }
}

#[test]
fn text_is_written_in_utf8() {
    let mut serializer = BasicSerializer::new();
    serializer.serialize_str("\u{00fc}").unwrap();
    serializer.serialize_str("\u{6c34}").unwrap();
    serializer.serialize_char('\u{00e9}').unwrap();
    serializer.serialize_char('a').unwrap();
    assert_eq!(
        serializer.flush(),
        vec![0x62, 0xC3, 0xBC, 0x63, 0xE6, 0xB0, 0xB4, 0x62, 0xC3, 0xA9, 0x61, 0x61]
    );
}

#[test]
fn unit_variants_by_name_and_by_index() {
    let mut by_name = BasicSerializer::new();
    by_name.serialize_unit_variant("Colour", 2, "Blue").unwrap();
    assert_eq!(by_name.flush(), vec![0x64, 0x42, 0x6C, 0x75, 0x65]);
    let mut by_index = BasicSerializer::new().with_variants_by_index(true);
    by_index.serialize_unit_variant("Colour", 2, "Blue").unwrap();
    by_index.serialize_unit_variant("Colour", 300, "Far").unwrap();
    assert_eq!(by_index.flush(), vec![0x02, 0x19, 0x01, 0x2C]);
}

#[test]
fn raw_writes_are_big_endian() {
    let mut serializer = BasicSerializer::new();
    serializer.write_u8(0xAB).unwrap();
    serializer.write_u16(0x0102).unwrap();
    serializer.write_u32(0x03040506).unwrap();
    serializer.write_u64(0x0708090A0B0C0D0E).unwrap();
    serializer.write_bytes(&[0xFE, 0xFF]).unwrap();
    assert_eq!(serializer.pending_len(), 17);
    assert_eq!(
        serializer.flush(),
        vec![
            0xAB, 0x01, 0x02, 0x03, 0x04, 0x05, 0x06, 0x07, 0x08, 0x09, 0x0A, 0x0B, 0x0C, 0x0D,
            0x0E, 0xFE, 0xFF
        ]
    );
}

#[test]
fn heads_of_every_major_type() {
    let mut serializer = BasicSerializer::new();
    serializer.write_head(MajorType::UnsignedInteger, 10).unwrap();
    serializer.write_head(MajorType::NegativeInteger, 10).unwrap();
    serializer.write_head(MajorType::ByteString, 0).unwrap();
    serializer.write_head(MajorType::TextString, 0).unwrap();
    serializer.write_head(MajorType::ArrayOfItems, 24).unwrap();
    serializer.write_head(MajorType::MapOfItems, 256).unwrap();
    serializer.write_head(MajorType::Tag, 1).unwrap();
    serializer.serialize_opening(MajorType::ArrayOfItems, None).unwrap();
    serializer.serialize_opening(MajorType::MapOfItems, None).unwrap();
    serializer.serialize_opening(MajorType::MapOfItems, Some(2)).unwrap();
    assert_eq!(
        serializer.flush(),
        vec![
            0x0A, 0x2A, 0x40, 0x60, 0x98, 0x18, 0xB9, 0x01, 0x00, 0xC1, 0x9F, 0xBF, 0xA2
        ]
    );
}

#[test]
fn flush_hands_over_and_empties() {
    let mut serializer = BasicSerializer::new();
    serializer.serialize_u8(1).unwrap();
    serializer.serialize_u8(2).unwrap();
    assert_eq!(serializer.flush(), vec![0x01, 0x02]);
    assert_eq!(serializer.flush(), Vec::<u8>::new());
    serializer.serialize_u8(3).unwrap();
    assert_eq!(serializer.flush(), vec![0x03]);
}

#[test]
fn items_are_written_as_their_kind() {
    let items = vec![
        Item::Unsigned(500),
        Item::Negative(499),
        Item::Bytes(vec![0xDE, 0xAD]),
        Item::Text("hi".to_string()),
        Item::ArrayStart(Some(2)),
        Item::MapStart(None),
        Item::Tag(32),
        Item::Bool(true),
        Item::Null,
        Item::Undefined,
        Item::Float16(0x3C00),
        Item::Float32(0x47C35000),
        Item::Float64(0x3FF199999999999A),
        Item::Break,
    ];
    let mut serializer = BasicSerializer::new();
    for item in &items {
        serializer.serialize_item(item).unwrap();
    }
    assert_eq!(
        serializer.flush(),
        vec![
            0x19, 0x01, 0xF4, 0x39, 0x01, 0xF3, 0x42, 0xDE, 0xAD, 0x62, 0x68, 0x69, 0x82, 0xBF,
            0xD8, 0x20, 0xF5, 0xF6, 0xF7, 0xF9, 0x3C, 0x00, 0xFA, 0x47, 0xC3, 0x50, 0x00, 0xFB,
            0x3F, 0xF1, 0x99, 0x99, 0x99, 0x99, 0x99, 0x9A, 0xFF
        ]
    );
}

#[test]
fn definite_sequence_of_three() {
    let mut sequence = BasicSerializer::new().serialize_seq(Some(3)).unwrap();
    sequence.serialize_element(&Item::Unsigned(1)).unwrap();
    sequence.serialize_element(&Item::Unsigned(2)).unwrap();
    sequence.serialize_element(&Item::Unsigned(3)).unwrap();
    sequence.end().unwrap();
    assert!(sequence.is_complete());
    let mut encoder = sequence.finish().unwrap();
    assert_eq!(encoder.flush(), vec![0x83, 0x01, 0x02, 0x03]);
}

#[test]
fn indefinite_sequence_of_three() {
    let mut sequence = BasicSerializer::new().serialize_seq(None).unwrap();
    sequence.serialize_element(&Item::Unsigned(1)).unwrap();
    sequence.serialize_element(&Item::Unsigned(2)).unwrap();
    sequence.serialize_element(&Item::Unsigned(3)).unwrap();
    sequence.end().unwrap();
    assert_eq!(sequence.flush(), vec![0x9F, 0x01, 0x02, 0x03, 0xFF]);
}

#[test]
fn nested_sequences() {
    let mut sequence = BasicSerializer::new().serialize_seq(None).unwrap();
    sequence.serialize_element(&Item::Unsigned(1)).unwrap();
    sequence.serialize_element(&Item::ArrayStart(Some(2))).unwrap();
    assert_eq!(sequence.depth(), 2);
    sequence.serialize_element(&Item::Unsigned(2)).unwrap();
    sequence.serialize_element(&Item::Unsigned(3)).unwrap();
    sequence.end().unwrap();
    sequence.serialize_element(&Item::ArrayStart(None)).unwrap();
    sequence.serialize_element(&Item::Unsigned(4)).unwrap();
    sequence.serialize_element(&Item::Unsigned(5)).unwrap();
    sequence.end().unwrap();
    sequence.end().unwrap();
    assert_eq!(sequence.depth(), 0);
    assert_eq!(
        sequence.flush(),
        vec![0x9F, 0x01, 0x82, 0x02, 0x03, 0x9F, 0x04, 0x05, 0xFF, 0xFF]
    );
}

#[test]
fn count_of_a_definite_sequence_is_kept() {
    let mut sequence = BasicSerializer::new().serialize_tuple(2).unwrap();
    sequence.serialize_element(&Item::Unsigned(1)).unwrap();
    assert!(matches!(sequence.end(), Err(EncodeError::Serialization(_))));
    sequence.serialize_element(&Item::Unsigned(2)).unwrap();
    assert!(matches!(
        sequence.serialize_element(&Item::Unsigned(3)),
        Err(EncodeError::Serialization(_))
    ));
    assert!(!sequence.is_complete());
    sequence.end().unwrap();
    assert!(matches!(sequence.end(), Err(EncodeError::Serialization(_))));
    assert_eq!(sequence.flush(), vec![0x82, 0x01, 0x02]);
}

#[test]
fn tuple_struct_is_an_array() {
    let mut fields = BasicSerializer::new().serialize_tuple_struct("Point", 2).unwrap();
    fields.serialize_element(&Item::from_i64(-3)).unwrap();
    fields.serialize_element(&Item::from_i64(4)).unwrap();
    fields.end().unwrap();
    assert_eq!(fields.flush(), vec![0x82, 0x22, 0x04]);
}

#[test]
fn maps_take_keys_and_values_in_turn() {
    let mut map = BasicSerializer::new().serialize_map(Some(2)).unwrap();
    assert!(matches!(
        map.serialize_value(&Item::Unsigned(1)),
        Err(EncodeError::Serialization(_))
    ));
    assert!(matches!(
        map.serialize_element(&Item::Unsigned(1)),
        Err(EncodeError::Serialization(_))
    ));
    map.serialize_key(&Item::Unsigned(1)).unwrap();
    assert!(matches!(
        map.serialize_key(&Item::Unsigned(2)),
        Err(EncodeError::Serialization(_))
    ));
    assert!(matches!(map.end(), Err(EncodeError::Serialization(_))));
    map.serialize_value(&Item::Unsigned(2)).unwrap();
    map.serialize_key(&Item::Unsigned(3)).unwrap();
    map.serialize_value(&Item::Unsigned(4)).unwrap();
    assert!(matches!(
        map.serialize_key(&Item::Unsigned(5)),
        Err(EncodeError::Serialization(_))
    ));
    map.end().unwrap();
    assert_eq!(map.flush(), vec![0xA2, 0x01, 0x02, 0x03, 0x04]);
}

#[test]
fn indefinite_map_cannot_end_after_a_key() {
    let mut map = BasicSerializer::new().serialize_map(None).unwrap();
    map.serialize_key(&Item::Text("a".to_string())).unwrap();
    assert!(matches!(map.end(), Err(EncodeError::Serialization(_))));
    map.serialize_value(&Item::Unsigned(1)).unwrap();
    map.end().unwrap();
    assert_eq!(map.flush(), vec![0xBF, 0x61, 0x61, 0x01, 0xFF]);
}

#[test]
fn records_keep_the_order_of_their_fields() {
    let mut record = BasicSerializer::new().serialize_struct("Pair", 2).unwrap();
    record.serialize_field("b", &Item::Unsigned(1)).unwrap();
    record.serialize_field("a", &Item::Unsigned(2)).unwrap();
    assert!(matches!(
        record.serialize_field("c", &Item::Unsigned(3)),
        Err(EncodeError::Serialization(_))
    ));
    assert!(matches!(
        record.serialize_field("c", &Item::Break),
        Err(EncodeError::Serialization(_))
    ));
    record.end().unwrap();
    assert_eq!(record.flush(), vec![0xA2, 0x61, 0x62, 0x01, 0x61, 0x61, 0x02]);
}

#[test]
fn variants_with_payload_are_single_entry_maps() {
    let mut newtype = BasicSerializer::new()
        .serialize_newtype_variant("Shape", 0, "Circle")
        .unwrap();
    newtype.serialize_value(&Item::Unsigned(5)).unwrap();
    newtype.end().unwrap();
    assert_eq!(
        newtype.flush(),
        vec![0xA1, 0x66, 0x43, 0x69, 0x72, 0x63, 0x6C, 0x65, 0x05]
    );

    let mut tuple = BasicSerializer::new()
        .with_variants_by_index(true)
        .serialize_tuple_variant("Shape", 1, "Rect", 2)
        .unwrap();
    tuple.serialize_element(&Item::Unsigned(3)).unwrap();
    assert!(matches!(tuple.end_variant(), Err(EncodeError::Serialization(_))));
    tuple.serialize_element(&Item::Unsigned(4)).unwrap();
    tuple.end_variant().unwrap();
    assert!(tuple.is_complete());
    assert_eq!(tuple.flush(), vec![0xA1, 0x01, 0x82, 0x03, 0x04]);

    let mut record = BasicSerializer::new()
        .serialize_struct_variant("Shape", 2, "Sq", 1)
        .unwrap();
    record.serialize_field("s", &Item::Unsigned(9)).unwrap();
    record.end_variant().unwrap();
    assert_eq!(
        record.flush(),
        vec![0xA1, 0x62, 0x53, 0x71, 0xA1, 0x61, 0x73, 0x09]
    );
}

#[test]
fn variant_inside_a_sequence() {
    let mut sequence = ComplexSerializer::new(BasicSerializer::new().with_variants_by_index(true));
    sequence.serialize_item(&Item::ArrayStart(Some(1))).unwrap();
    sequence.serialize_variant("Shape", 7, "Any").unwrap();
    sequence.serialize_item(&Item::Null).unwrap();
    sequence.end().unwrap();
    sequence.end().unwrap();
    assert!(matches!(
        sequence.serialize_item(&Item::Break),
        Err(EncodeError::Serialization(_))
    ));
    assert_eq!(sequence.flush(), vec![0x81, 0xA1, 0x07, 0xF6]);
}

#[test]
fn a_tag_belongs_to_the_item_after_it() {
    let mut sequence = BasicSerializer::new().serialize_seq(Some(1)).unwrap();
    sequence.serialize_element(&Item::Tag(1)).unwrap();
    assert!(matches!(sequence.end(), Err(EncodeError::Serialization(_))));
    sequence.serialize_element(&Item::Unsigned(1363896240)).unwrap();
    sequence.end().unwrap();
    assert_eq!(sequence.flush(), vec![0x81, 0xC1, 0x1A, 0x51, 0x4B, 0x67, 0xB0]);
}

#[test]
fn finish_refuses_while_an_aggregate_is_open() {
    let sequence = BasicSerializer::new().serialize_seq(None).unwrap();
    assert!(matches!(sequence.finish(), Err(EncodeError::Serialization(_))));
    let top = ComplexSerializer::new(BasicSerializer::new());
    assert!(top.finish().is_ok());
}

#[test]
fn encode_error_messages() {
    assert_eq!(
        EncodeError::LengthOutOfBounds.message(),
        "Cannot encode a length or magnitude of 2^64 or more"
    );
    assert_eq!(EncodeError::custom("x").message(), "Error when serializing");
    assert!(matches!(EncodeError::custom("why"), EncodeError::Serialization(text) if text == "why"));
    let io = std::io::Error::new(std::io::ErrorKind::Other, "sink");
    let error = EncodeError::from(io);
    assert!(matches!(error, EncodeError::IO(_)));
    assert_eq!(error.message(), "Input/Output error");
    let wrapped = cbor_codec::error::Error::from(EncodeError::LengthOutOfBounds);
    assert!(matches!(
        wrapped,
        cbor_codec::error::Error::Encode(EncodeError::LengthOutOfBounds)
    ));
    assert_eq!(wrapped.message(), "Error while encoding a CBOR data sequence");
}

#[test]
fn items_of_the_data_model() {
    assert_eq!(Item::none(), Item::Undefined);
    assert_eq!(Item::unit(), Item::Null);
    assert_eq!(Item::character('\u{00e9}'), Item::Text("\u{00e9}".to_string()));
    assert_eq!(Item::text("abc"), Item::Text("abc".to_string()));
    assert_eq!(Item::bytes(&[1, 2]), Item::Bytes(vec![1, 2]));
    assert_eq!(Item::array_start(Some(3)), Item::ArrayStart(Some(3)));
    assert_eq!(Item::array_start(None), Item::ArrayStart(None));
    assert_eq!(Item::map_start(Some(0)), Item::MapStart(Some(0)));
    assert_eq!(Item::map_start(None), Item::MapStart(None));
}

#[test]
fn unit_variant_inside_an_aggregate() {
    let mut sequence = BasicSerializer::new().serialize_seq(Some(1)).unwrap();
    sequence.serialize_unit_variant("Colour", 1, "Red").unwrap();
    assert!(matches!(
        sequence.serialize_unit_variant("Colour", 1, "Red"),
        Err(EncodeError::Serialization(_))
    ));
    assert!(matches!(
        sequence.serialize_variant("Colour", 1, "Red"),
        Err(EncodeError::Serialization(_))
    ));
    sequence.end().unwrap();
    assert_eq!(sequence.flush(), vec![0x81, 0x63, 0x52, 0x65, 0x64]);
}

#[test]
fn wrappers_add_no_framing() {
    let mut serializer = BasicSerializer::new();
    serializer.serialize_some(&Item::Unsigned(5)).unwrap();
    serializer.serialize_newtype_struct("Metres", &Item::Unsigned(300)).unwrap();
    serializer.serialize_some(&Item::Undefined).unwrap();
    assert_eq!(serializer.flush(), vec![0x05, 0x19, 0x01, 0x2C, 0xF7]);
}
