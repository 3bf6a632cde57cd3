use cbor_codec::de::basic::BasicDeserializer;
use cbor_codec::error::DecodeError;
use cbor_codec::float::{double_to_half, double_to_single, half_to_double, single_to_double};
use cbor_codec::item::Item;
use cbor_codec::ser::basic::BasicSerializer;

fn bytes_of(value: f64) -> Vec<u8> {
    let mut serializer = BasicSerializer::new();
    serializer.serialize_f64(value.to_bits()).unwrap();
    serializer.flush()
}

#[test]
fn smallest_width_that_holds_the_number() {
    assert_eq!(bytes_of(0.0), vec![0xF9, 0x00, 0x00]);
    assert_eq!(bytes_of(-0.0), vec![0xF9, 0x80, 0x00]);
    assert_eq!(bytes_of(1.0), vec![0xF9, 0x3C, 0x00]);
    assert_eq!(bytes_of(1.5), vec![0xF9, 0x3E, 0x00]);
    assert_eq!(bytes_of(65504.0), vec![0xF9, 0x7B, 0xFF]);
    assert_eq!(bytes_of(-4.0), vec![0xF9, 0xC4, 0x00]);
    assert_eq!(bytes_of(5.960464477539063e-8), vec![0xF9, 0x00, 0x01]);
    assert_eq!(bytes_of(0.00006103515625), vec![0xF9, 0x04, 0x00]);
    assert_eq!(bytes_of(f64::INFINITY), vec![0xF9, 0x7C, 0x00]);
    assert_eq!(bytes_of(f64::NEG_INFINITY), vec![0xF9, 0xFC, 0x00]);
    assert_eq!(bytes_of(f64::from_bits(0x7FF8000000000000)), vec![0xF9, 0x7E, 0x00]);
    assert_eq!(bytes_of(100000.0), vec![0xFA, 0x47, 0xC3, 0x50, 0x00]);
    assert_eq!(bytes_of(3.4028234663852886e+38), vec![0xFA, 0x7F, 0x7F, 0xFF, 0xFF]);
    assert_eq!(bytes_of(1.401298464324817e-45), vec![0xFA, 0x00, 0x00, 0x00, 0x01]);
    assert_eq!(
        bytes_of(1.1),
        vec![0xFB, 0x3F, 0xF1, 0x99, 0x99, 0x99, 0x99, 0x99, 0x9A]
    );
    assert_eq!(
        bytes_of(1.0e+300),
        vec![0xFB, 0x7E, 0x37, 0xE4, 0x3C, 0x88, 0x00, 0x75, 0x9C]
    );
    assert_eq!(
        bytes_of(-4.1),
        vec![0xFB, 0xC0, 0x10, 0x66, 0x66, 0x66, 0x66, 0x66, 0x66]
    );
    assert_eq!(
        bytes_of(f64::from_bits(1)),
        vec![0xFB, 0x00, 0x00, 0x00, 0x00, 0x00, 0x00, 0x00, 0x01]
    );
}

#[test]
fn single_precision_is_written_as_its_number() {
    let mut serializer = BasicSerializer::new();
    serializer.serialize_f32(1.0f32.to_bits()).unwrap();
    serializer.serialize_f32(100000.0f32.to_bits()).unwrap();
    serializer.serialize_f32(1.1f32.to_bits()).unwrap();
    assert_eq!(
        serializer.flush(),
        vec![0xF9, 0x3C, 0x00, 0xFA, 0x47, 0xC3, 0x50, 0x00, 0xFA, 0x3F, 0x8C, 0xCC, 0xCD]
    );
}

#[test]
fn widening_agrees_with_the_machine() {
    let mut bits: u32 = 0;
    let mut step: u32 = 1;
    for _ in 0..200000 {
        let value = f32::from_bits(bits);
        if !value.is_nan() {
            assert_eq!(single_to_double(bits), (value as f64).to_bits());
        }
        bits = bits.wrapping_add(step);
        step = step.wrapping_mul(3).wrapping_add(7) % 100003;
    }
    for bits in [0u32, 1, 2, 3, 0x7F_FFFF, 0x80_0000, 0x7F7F_FFFF, 0x7F80_0000, 0x8000_0000, 0x8000_0001, 0xFF80_0000, 0x0040_0000, 0x0000_0100] {
        assert_eq!(single_to_double(bits), (f32::from_bits(bits) as f64).to_bits());
    }
    assert_eq!(single_to_double(0x7FC0_0001), 0x7FF8_0000_2000_0000);
}

#[test]
fn every_half_widens_through_single_precision() {
    assert_eq!(half_to_double(0x3C00), 1.0f64.to_bits());
    assert_eq!(half_to_double(0xC000), (-2.0f64).to_bits());
    assert_eq!(half_to_double(0x7BFF), 65504.0f64.to_bits());
    assert_eq!(half_to_double(0x0001), 5.960464477539063e-8f64.to_bits());
    assert_eq!(half_to_double(0x03FF), 0.00006097555160522461f64.to_bits());
    assert_eq!(half_to_double(0x0400), 0.00006103515625f64.to_bits());
    assert_eq!(half_to_double(0x3555), 0.333251953125f64.to_bits());
    assert_eq!(half_to_double(0x7C00), f64::INFINITY.to_bits());
    assert_eq!(half_to_double(0xFC00), f64::NEG_INFINITY.to_bits());
    assert_eq!(half_to_double(0x8000), (-0.0f64).to_bits());
    assert!(f64::from_bits(half_to_double(0x7E00)).is_nan());
    for bits in 0u16..=0xFFFF {
        let wide = half_to_double(bits);
        assert_eq!(double_to_half(wide), Some(bits));
        let exponent = (bits >> 10) & 0x1F;
        let fraction = (bits & 0x3FF) as f64;
        if exponent != 0x1F {
            let magnitude = if exponent == 0 {
                fraction * 2.0f64.powi(-24)
            } else {
                (1024.0 + fraction) * 2.0f64.powi(exponent as i32 - 25)
            };
            let value = if bits & 0x8000 != 0 { -magnitude } else { magnitude };
            assert_eq!(wide, value.to_bits());
            let single = double_to_single(wide).unwrap();
            assert_eq!(f32::from_bits(single) as f64, value);
        }
    }
}

#[test]
fn narrowing_refuses_what_would_lose_bits() {
    assert_eq!(double_to_single(1.1f64.to_bits()), None);
    assert_eq!(double_to_single(1.0e+300f64.to_bits()), None);
    assert_eq!(double_to_single(f64::from_bits(1).to_bits()), None);
    assert_eq!(double_to_single(3.4028234663852886e+38f64.to_bits()), Some(0x7F7F_FFFF));
    assert_eq!(double_to_single(3.4028234663852889e+38f64.to_bits()), None);
    assert_eq!(double_to_single(1.401298464324817e-45f64.to_bits()), Some(1));
    assert_eq!(double_to_single(7.006492321624085e-46f64.to_bits()), None);
    assert_eq!(double_to_single(0x7FF0_0000_0000_0001), None);
    assert_eq!(double_to_single(0x7FF8_0000_2000_0000), Some(0x7FC0_0001));
    assert_eq!(double_to_half(65504.0f64.to_bits()), Some(0x7BFF));
    assert_eq!(double_to_half(65505.0f64.to_bits()), None);
    assert_eq!(double_to_half(65536.0f64.to_bits()), None);
    assert_eq!(double_to_half(100000.0f64.to_bits()), None);
    assert_eq!(double_to_half(2.9802322387695312e-8f64.to_bits()), None);
    assert_eq!(double_to_half(0.1f64.to_bits()), None);
    let mut bits: u32 = 0x1234_5678;
    for _ in 0..100000 {
        let wide = (f32::from_bits(bits) as f64).to_bits();
        if !f32::from_bits(bits).is_nan() {
            assert_eq!(double_to_single(wide), Some(bits));
        }
        assert_eq!(double_to_single(wide | 1), if f32::from_bits(bits).is_nan() { None } else { None });
        bits = bits.wrapping_mul(1664525).wrapping_add(1013904223);
    }
}

#[test]
fn items_of_numbers() {
    assert_eq!(Item::float(1.0f64.to_bits()), Item::Float16(0x3C00));
    assert_eq!(Item::float(100000.0f64.to_bits()), Item::Float32(0x47C35000));
    assert_eq!(Item::float(1.1f64.to_bits()), Item::Float64(0x3FF199999999999A));
    assert_eq!(Item::Float16(0x3C00).as_float().unwrap(), 1.0f64.to_bits());
    assert_eq!(Item::Float32(0x47C35000).as_float().unwrap(), 100000.0f64.to_bits());
    assert_eq!(Item::Float64(7).as_float().unwrap(), 7);
    assert!(matches!(Item::Unsigned(1).as_float(), Err(DecodeError::TypeMismatch)));
    assert_eq!(Item::Float16(0x3C00).as_single().unwrap(), 1.0f32.to_bits());
    assert_eq!(Item::Float64(0.5f64.to_bits()).as_single().unwrap(), 0.5f32.to_bits());
    assert!(matches!(Item::Float64(1.1f64.to_bits()).as_single(), Err(DecodeError::Overflow)));
    assert!(matches!(Item::Null.as_single(), Err(DecodeError::TypeMismatch)));
}

#[test]
fn numbers_are_read_back_as_written() {
    let values: &[f64] = &[0.0, -0.0, 1.0, -1.5, 65504.0, 100000.0, 1.1, -4.1, 1.0e+300, f64::INFINITY, f64::NEG_INFINITY, f64::MIN_POSITIVE, f64::MAX, 5.960464477539063e-8];
    let mut serializer = BasicSerializer::new();
    for value in values {
        serializer.serialize_f64(value.to_bits()).unwrap();
    }
    serializer.serialize_f64(0x7FF8_0000_0000_0001).unwrap();
    serializer.serialize_f32(0.1f32.to_bits()).unwrap();
    serializer.serialize_f64(0.1f64.to_bits()).unwrap();
    serializer.serialize_u8(1).unwrap();
    let mut decoder = BasicDeserializer::new(serializer.flush());
    for value in values {
        assert_eq!(decoder.deserialize_f64().unwrap(), value.to_bits());
    }
    assert_eq!(decoder.deserialize_f64().unwrap(), 0x7FF8_0000_0000_0001);
    assert_eq!(decoder.deserialize_f32().unwrap(), 0.1f32.to_bits());
    assert!(matches!(decoder.deserialize_f32(), Err(DecodeError::Overflow)));
    assert_eq!(decoder.deserialize_f64().unwrap(), 0.1f64.to_bits());
    assert!(matches!(decoder.deserialize_f64(), Err(DecodeError::TypeMismatch)));
    assert!(matches!(decoder.deserialize_f32(), Err(DecodeError::TypeMismatch)));
    assert_eq!(decoder.deserialize_u8().unwrap(), 1);
    assert!(matches!(decoder.deserialize_f64(), Err(DecodeError::Malformed)));
}
