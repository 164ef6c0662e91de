#![allow(dead_code, unused_imports)]

use sbe_codegen::models::types::primitive_type::NativeType;
use sbe_codegen::models::types::CharacterEncoding;
use sbe_codegen::models::ByteOrder;
use sbe_codegen::wire::block::{block_fits, decode_block, encode_block};
use sbe_codegen::wire::buffer::{
    get_slice_at, get_unsigned_at, put_bytes_at, put_unsigned_at, split_at, unsigned_bytes,
};
use sbe_codegen::wire::enum_set::{get_flag, set_flag, EnumCodec, EnumValue};
use sbe_codegen::wire::error::SbeError;
use sbe_codegen::wire::group::{take_sizes, GroupDecoder, GroupEncoder, GroupLayout, NestedName};
use sbe_codegen::wire::layout::{literal_value, parse_signed};
use sbe_codegen::wire::message::{message_size, HeaderLayout};
use sbe_codegen::wire::scalar::{get_value_at, put_value_at, Primitive, ScalarField};
use sbe_codegen::wire::text_field::TextField;
use sbe_codegen::wire::var_data::{VarDataDecoder, VarDataEncoder, VarDataLayout};

const LE: ByteOrder = ByteOrder::LittleEndian;
const BE: ByteOrder = ByteOrder::BigEndian;

fn text(s: &str) -> String {
    s.to_string()
}

fn bounded(name: &str, offset: usize, primitive: Primitive, min: i128, max: i128) -> ScalarField {
    ScalarField {
        min_value: Some(min),
        max_value: Some(max),
        ..ScalarField::new(name, offset, primitive)
    }
}

fn standard_header() -> HeaderLayout {
    HeaderLayout {
        block_length: ScalarField::new("block_length", 0, Primitive::UInt16),
        template_id: ScalarField::new("template_id", 2, Primitive::UInt16),
        schema_id: ScalarField::new("schema_id", 4, Primitive::UInt16),
        version: ScalarField::new("version", 6, Primitive::UInt16),
    }
}

#[test]
fn unsigned_numbers_follow_the_byte_order() {
    let data = [0x01u8, 0x02, 0x03, 0x04, 0x05, 0x06, 0x07, 0x08, 0x09];
    assert_eq!(get_unsigned_at(&data, LE, 0, 2), Ok(0x0201));
    assert_eq!(get_unsigned_at(&data, BE, 0, 2), Ok(0x0102));
    assert_eq!(get_unsigned_at(&data, LE, 1, 4), Ok(0x05040302));
    assert_eq!(get_unsigned_at(&data, BE, 1, 4), Ok(0x02030405));
    assert_eq!(get_unsigned_at(&data, LE, 1, 8), Ok(0x0908070605040302));
    assert_eq!(get_unsigned_at(&data, BE, 0, 8), Ok(0x0102030405060708));
    assert_eq!(get_unsigned_at(&data, LE, 8, 1), Ok(9));
    assert_eq!(get_unsigned_at(&data, LE, 3, 0), Ok(0));
    assert_eq!(unsigned_bytes(0x1234, 2, LE), vec![0x34, 0x12]);
    assert_eq!(unsigned_bytes(0x1234, 2, BE), vec![0x12, 0x34]);
    assert_eq!(unsigned_bytes(1, 4, BE), vec![0, 0, 0, 1]);
}

#[test]
fn reading_past_the_end_is_refused() {
    let data = [0u8; 4];
    assert_eq!(
        get_unsigned_at(&data, LE, 3, 2),
        Err(SbeError::CodecOutOfBounds(5, 4))
    );
    assert_eq!(
        get_unsigned_at(&data, LE, usize::MAX, 2),
        Err(SbeError::CodecOutOfBounds(usize::MAX, 4))
    );
    assert_eq!(
        get_slice_at(&data, 2, 3).unwrap_err(),
        SbeError::CodecOutOfBounds(5, 4)
    );
    assert_eq!(get_slice_at(&data, 4, 0).unwrap().len(), 0);
    let mut buffer = vec![0u8; 4];
    assert_eq!(
        put_unsigned_at(&mut buffer, LE, 3, 4, 1),
        Err(SbeError::CodecOutOfBounds(7, 4))
    );
    assert_eq!(buffer, vec![0u8; 4]);
    assert_eq!(
        put_bytes_at(&mut buffer, 1, &[1, 2, 3, 4]),
        Err(SbeError::CodecOutOfBounds(5, 4))
    );
}

#[test]
fn buffers_split_up_to_their_end() {
    let data = [1u8, 2, 3];
    let (before, after) = split_at(&data, 1).unwrap();
    assert_eq!(before, &[1]);
    assert_eq!(after, &[2, 3]);
    let (before, after) = split_at(&data, 0).unwrap();
    assert!(before.is_empty());
    assert_eq!(after.len(), 3);
    let (before, after) = split_at(&data, 3).unwrap();
    assert_eq!(before, &[1, 2, 3]);
    assert!(after.is_empty());
    let nothing: [u8; 0] = [];
    let (before, after) = split_at(&nothing, 0).unwrap();
    assert!(before.is_empty() && after.is_empty());
    assert_eq!(split_at(&data, 4).unwrap_err(), SbeError::CodecOutOfBounds(4, 3));
    assert_eq!(split_at(&data, 9).unwrap_err(), SbeError::CodecOutOfBounds(9, 3));
}

#[test]
fn writes_change_their_own_bytes_only() {
    let mut buffer = vec![0xAAu8; 8];
    put_unsigned_at(&mut buffer, LE, 2, 4, 0x01020304).unwrap();
    assert_eq!(buffer, vec![0xAA, 0xAA, 0x04, 0x03, 0x02, 0x01, 0xAA, 0xAA]);
    put_unsigned_at(&mut buffer, BE, 2, 2, 0xBEEF).unwrap();
    assert_eq!(buffer, vec![0xAA, 0xAA, 0xBE, 0xEF, 0x02, 0x01, 0xAA, 0xAA]);
}

#[test]
fn primitives_round_trip_in_both_orders() {
    let cases: [(Primitive, i128); 16] = [
        (Primitive::Char, 65),
        (Primitive::UInt8, 255),
        (Primitive::UInt16, 65535),
        (Primitive::UInt32, 4_000_000_000),
        (Primitive::UInt64, u64::MAX as i128),
        (Primitive::Int8, -128),
        (Primitive::Int8, 127),
        (Primitive::Int16, -2),
        (Primitive::Int32, i32::MIN as i128),
        (Primitive::Int64, i64::MIN as i128),
        (Primitive::Int64, i64::MAX as i128),
        (Primitive::Int64, -1),
        (Primitive::Float, 35.9f32.to_bits() as i128),
        (Primitive::Double, (-0.5f64).to_bits() as i128),
        (Primitive::UInt16, 0),
        (Primitive::Int32, 0),
    ];
    for order in [LE, BE] {
        for (primitive, value) in cases {
            let mut buffer = vec![0x55u8; 12];
            put_value_at(&mut buffer, order, 3, primitive, value).unwrap();
            assert_eq!(get_value_at(&buffer, order, 3, primitive), Ok(value));
            assert_eq!(&buffer[..3], &[0x55; 3]);
            assert_eq!(&buffer[3 + primitive.size()..], &vec![0x55; 9 - primitive.size()][..]);
        }
    }
    let mut buffer = vec![0u8; 2];
    put_value_at(&mut buffer, LE, 0, Primitive::Int16, -2).unwrap();
    assert_eq!(buffer, vec![0xFE, 0xFF]);
    let mut buffer = vec![0u8; 4];
    put_value_at(&mut buffer, LE, 0, Primitive::Float, 1.0f32.to_bits() as i128).unwrap();
    assert_eq!(buffer, 1.0f32.to_le_bytes());
    put_value_at(&mut buffer, BE, 0, Primitive::Float, 1.0f32.to_bits() as i128).unwrap();
    assert_eq!(buffer, 1.0f32.to_be_bytes());
}

#[test]
fn null_sentinels_of_the_primitives() {
    assert_eq!(Primitive::Char.null(), 0);
    assert_eq!(Primitive::UInt8.null(), 255);
    assert_eq!(Primitive::UInt16.null(), 65535);
    assert_eq!(Primitive::UInt32.null(), u32::MAX as i128);
    assert_eq!(Primitive::UInt64.null(), u64::MAX as i128);
    assert_eq!(Primitive::Int8.null(), -128);
    assert_eq!(Primitive::Int16.null(), i16::MIN as i128);
    assert_eq!(Primitive::Int32.null(), i32::MIN as i128);
    assert_eq!(Primitive::Int64.null(), i64::MIN as i128);
    assert!(f32::from_bits(Primitive::Float.null() as u32).is_nan());
    assert!(f64::from_bits(Primitive::Double.null() as u64).is_nan());
    assert!(Primitive::Float.nan(f32::NAN.to_bits() as i128));
    assert!(Primitive::Float.nan((-f32::NAN).to_bits() as i128));
    assert!(!Primitive::Float.nan(f32::INFINITY.to_bits() as i128));
    assert!(!Primitive::Float.nan(f32::NEG_INFINITY.to_bits() as i128));
    assert!(!Primitive::Float.nan(1.5f32.to_bits() as i128));
    assert!(Primitive::Double.nan(f64::NAN.to_bits() as i128));
    assert!(!Primitive::Double.nan(f64::INFINITY.to_bits() as i128));
    assert!(!Primitive::Int32.nan(0x7FC0_0000));
    assert_eq!(Primitive::from_native(&NativeType::Int16), Some(Primitive::Int16));
    assert_eq!(Primitive::from_native(&NativeType::Reference(text("x"))), None);
    assert!(Primitive::Int8.contains(-128));
    assert!(!Primitive::Int8.contains(128));
    assert!(!Primitive::UInt8.contains(-1));
}

#[test]
fn absent_optional_is_written_as_the_null() {
    for order in [LE, BE] {
        let field = ScalarField::new("discount", 2, Primitive::Int8);
        let mut buffer = vec![0u8; 4];
        field.encode_optional(&mut buffer, order, None).unwrap();
        assert_eq!(buffer, vec![0, 0, 0x80, 0]);
        assert_eq!(field.decode_optional(&buffer, order), Ok(None));
        field.encode_optional(&mut buffer, order, Some(7)).unwrap();
        assert_eq!(field.decode_optional(&buffer, order), Ok(Some(7)));
        assert_eq!(field.decode_required(&buffer, order), Ok(7));
    }
    let field = ScalarField::new("serial", 0, Primitive::UInt32);
    let mut buffer = vec![0u8; 4];
    field.encode_optional(&mut buffer, LE, None).unwrap();
    assert_eq!(buffer, vec![0xFF; 4]);
    let declared = ScalarField {
        null_value: 0,
        ..ScalarField::new("count", 0, Primitive::UInt16)
    };
    let mut buffer = vec![9u8; 2];
    declared.encode_optional(&mut buffer, LE, None).unwrap();
    assert_eq!(buffer, vec![0, 0]);
    assert_eq!(declared.decode_optional(&buffer, LE), Ok(None));
}

#[test]
fn absent_float_is_a_nan() {
    let field = ScalarField::new("ratio", 0, Primitive::Float);
    let mut buffer = vec![0u8; 4];
    field.encode_optional(&mut buffer, LE, None).unwrap();
    assert!(f32::from_le_bytes([buffer[0], buffer[1], buffer[2], buffer[3]]).is_nan());
    assert_eq!(field.decode_optional(&buffer, LE), Ok(None));
    // Any NaN stands for absence, whatever its payload.
    let other = f32::from_bits(0xFFC0_1234);
    assert!(other.is_nan());
    let buffer = other.to_le_bytes();
    assert_eq!(field.decode_optional(&buffer, LE), Ok(None));
    let buffer = 40.0f32.to_le_bytes();
    assert_eq!(
        field.decode_optional(&buffer, LE),
        Ok(Some(40.0f32.to_bits() as i128))
    );
}

#[test]
fn bounds_are_enforced_on_write_and_read() {
    let field = bounded("efficiency", 1, Primitive::Int8, 0, 100);
    let mut buffer = vec![0u8; 3];
    assert_eq!(
        field.encode_required(&mut buffer, LE, 101),
        Err(SbeError::ValueOutOfBounds {
            field_name: text("efficiency"),
            message: text("101 > 100 (max)")
        })
    );
    assert_eq!(
        field.encode_required(&mut buffer, LE, -1),
        Err(SbeError::ValueOutOfBounds {
            field_name: text("efficiency"),
            message: text("-1 < 0 (min)")
        })
    );
    assert_eq!(buffer, vec![0u8; 3]);
    assert_eq!(field.encode_required(&mut buffer, LE, 0), Ok(()));
    assert_eq!(field.encode_required(&mut buffer, LE, 100), Ok(()));
    assert_eq!(field.decode_required(&buffer, LE), Ok(100));
    buffer[1] = 0xFF;
    assert_eq!(
        field.decode_required(&buffer, LE),
        Err(SbeError::ValueOutOfBounds {
            field_name: text("efficiency"),
            message: text("-1 < 0 (min)")
        })
    );
    assert!(field.encode_optional(&mut buffer, LE, Some(120)).is_err());
    assert_eq!(field.try_encode(&mut buffer, LE, 300), None);
    assert_eq!(field.try_encode(&mut buffer, LE, 35), Some(Ok(())));
    assert!(matches!(field.try_encode(&mut buffer, LE, 120), Some(Err(_))));
}

#[test]
fn fields_of_a_block_round_trip() {
    let fields = vec![
        ScalarField::new("serial_number", 0, Primitive::UInt64),
        ScalarField::new("model_year", 8, Primitive::UInt16),
        ScalarField::new("code", 10, Primitive::Char),
        ScalarField::new("delta", 11, Primitive::Int32),
    ];
    let values = vec![1234, 2013, 65, -77];
    for order in [LE, BE] {
        let mut buffer = vec![0u8; 15];
        encode_block(&fields, &mut buffer, order, &values).unwrap();
        assert_eq!(decode_block(&fields, &buffer, order), Ok(values.clone()));
        // Changing one field changes the bytes of that field only.
        let mut other = vec![0u8; 15];
        let changed = vec![1234, 1999, 65, -77];
        encode_block(&fields, &mut other, order, &changed).unwrap();
        for i in 0..15 {
            if !(8..10).contains(&i) {
                assert_eq!(buffer[i], other[i]);
            }
        }
        assert_ne!(&buffer[8..10], &other[8..10]);
    }
    let mut buffer = vec![0u8; 15];
    encode_block(&fields, &mut buffer, LE, &values).unwrap();
    assert_eq!(
        buffer,
        vec![0xD2, 0x04, 0, 0, 0, 0, 0, 0, 0xDD, 0x07, 0x41, 0xB3, 0xFF, 0xFF, 0xFF]
    );
    let mut short = vec![0u8; 12];
    assert_eq!(
        encode_block(&fields, &mut short, LE, &values),
        Err(SbeError::CodecOutOfBounds(15, 12))
    );
    assert_eq!(
        decode_block(&fields, &short, LE),
        Err(SbeError::CodecOutOfBounds(15, 12))
    );
}

#[test]
fn ascii_fields_refuse_other_text() {
    let field = TextField {
        name: text("vehicle_code"),
        offset: 1,
        length: 6,
        encoding: Some(CharacterEncoding::Ascii),
    };
    let mut buffer = vec![0x20u8; 8];
    assert_eq!(
        field.encode(&mut buffer, "héllo"),
        Err(SbeError::InvalidStringValue(text("héllo")))
    );
    assert_eq!(buffer, vec![0x20u8; 8]);
    assert_eq!(field.encode(&mut buffer, "abc"), Ok(()));
    assert_eq!(buffer, vec![0x20, b'a', b'b', b'c', 0, 0, 0, 0x20]);
    assert_eq!(field.decode(&buffer).unwrap(), "abc\0\0\0");
    assert_eq!(field.encode(&mut buffer, "abcdef"), Ok(()));
    assert_eq!(field.decode(&buffer).unwrap(), "abcdef");
    assert_eq!(
        field.encode(&mut buffer, "abcdefg"),
        Err(SbeError::ValueOutOfBounds {
            field_name: text("vehicle_code"),
            message: text("string 'abcdefg' length 7 > 6 (max)")
        })
    );
    let utf8 = TextField {
        encoding: Some(CharacterEncoding::Utf8),
        ..field.clone()
    };
    assert_eq!(utf8.encode(&mut buffer, "héllo"), Ok(()));
    assert_eq!(utf8.decode(&buffer).unwrap(), "héllo");
    buffer[1] = 0xFF;
    assert!(matches!(
        utf8.decode(&buffer),
        Err(SbeError::InvalidStringValue(_))
    ));
    let far = TextField {
        offset: 5,
        ..field.clone()
    };
    assert_eq!(far.decode(&buffer), Err(SbeError::CodecOutOfBounds(11, 8)));
    assert_eq!(
        far.encode(&mut buffer, "x"),
        Err(SbeError::CodecOutOfBounds(11, 8))
    );
}

#[test]
fn enums_know_their_values_and_their_null() {
    let boost = EnumCodec {
        name: text("BoostType"),
        primitive: Primitive::Char,
        values: vec![84, 83, 78, 75],
        null_value: 0,
    };
    let mut buffer = vec![0xEEu8; 3];
    boost.encode(&mut buffer, LE, 1, EnumValue::Declared(2)).unwrap();
    assert_eq!(buffer, vec![0xEE, b'N', 0xEE]);
    assert_eq!(boost.decode(&buffer, LE, 1), Ok(EnumValue::Declared(2)));
    boost.encode(&mut buffer, LE, 1, EnumValue::NullVal).unwrap();
    assert_eq!(buffer, vec![0xEE, 0, 0xEE]);
    assert_eq!(boost.decode(&buffer, LE, 1), Ok(EnumValue::NullVal));
    assert_eq!(
        boost.decode(&buffer, LE, 0),
        Err(SbeError::InvalidEnumValue {
            named_type: text("BoostType"),
            value: text("238")
        })
    );
    assert_eq!(boost.try_from(75), Ok(EnumValue::Declared(3)));
    assert_eq!(
        boost.decode(&buffer, LE, 3),
        Err(SbeError::CodecOutOfBounds(4, 3))
    );
    let wide = EnumCodec {
        name: text("Wide"),
        primitive: Primitive::UInt16,
        values: vec![1, 2],
        null_value: 65535,
    };
    let mut buffer = vec![0u8; 2];
    wide.encode(&mut buffer, BE, 0, EnumValue::NullVal).unwrap();
    assert_eq!(buffer, vec![0xFF, 0xFF]);
    assert_eq!(wide.decode(&buffer, BE, 0), Ok(EnumValue::NullVal));
}

#[test]
fn flags_are_bits() {
    let mut extras = 0u64;
    extras = set_flag(extras, 0, false);
    extras = set_flag(extras, 1, true);
    extras = set_flag(extras, 2, true);
    assert_eq!(extras, 6);
    assert!(!get_flag(extras, 0));
    assert!(get_flag(extras, 1));
    assert!(get_flag(extras, 2));
    extras = set_flag(extras, 1, false);
    assert_eq!(extras, 4);
    assert_eq!(set_flag(0, 63, true), 1u64 << 63);
}

#[test]
fn variable_data_round_trips() {
    let layout = VarDataLayout {
        name: text("manufacturer"),
        prefix_size: 4,
        element: Primitive::UInt8,
        ascii_only: false,
    };
    for order in [LE, BE] {
        let mut buffer = vec![0x11u8; 16];
        let mut encoder = VarDataEncoder::new(3);
        encoder.put_slice_at(&mut buffer, &layout, 0, b"Honda").unwrap();
        assert_eq!(encoder.size(&layout), Some(9));
        encoder.finalize(&mut buffer, order, &layout).unwrap();
        let decoder = VarDataDecoder::new(3);
        assert_eq!(decoder.length(&buffer, order, &layout), 5);
        assert_eq!(decoder.size(&buffer, order, &layout), Some(9));
        assert_eq!(decoder.get_slice_at(&buffer, &layout, 0, 5).unwrap(), b"Honda");
        assert_eq!(&buffer[..3], &[0x11; 3]);
        assert_eq!(&buffer[12..], &[0x11; 4]);
    }
    let mut buffer = vec![0u8; 16];
    let mut encoder = VarDataEncoder::new(0);
    encoder.put_slice_at(&mut buffer, &layout, 0, b"Civic").unwrap();
    encoder.put_slice_at(&mut buffer, &layout, 5, b" VTi").unwrap();
    encoder.finalize(&mut buffer, LE, &layout).unwrap();
    assert_eq!(&buffer[..13], b"\x09\0\0\0Civic VTi");
    // An empty field is its prefix.
    let mut buffer = vec![0xFFu8; 4];
    let encoder = VarDataEncoder::new(0);
    assert_eq!(encoder.size(&layout), Some(4));
    encoder.finalize(&mut buffer, LE, &layout).unwrap();
    assert_eq!(buffer, vec![0, 0, 0, 0]);
    // A prefix that cannot be read tells nothing.
    assert_eq!(VarDataDecoder::new(2).length(&buffer, LE, &layout), 0);
}

#[test]
fn variable_data_length_must_fit_the_prefix() {
    let layout = VarDataLayout {
        name: text("note"),
        prefix_size: 1,
        element: Primitive::Char,
        ascii_only: true,
    };
    let mut buffer = vec![0u8; 400];
    let mut encoder = VarDataEncoder::new(0);
    assert_eq!(
        encoder.put_slice_at(&mut buffer, &layout, 0, &[b'a'; 256]),
        Err(SbeError::VarDataOutOfBounds(text("note")))
    );
    assert_eq!(encoder.put_slice_at(&mut buffer, &layout, 0, &[b'a'; 255]), Ok(()));
    assert_eq!(encoder.length, 255);
    assert_eq!(
        encoder.put_slice_at(&mut buffer, &layout, 255, b"b"),
        Err(SbeError::VarDataOutOfBounds(text("note")))
    );
    assert!(matches!(
        encoder.put_slice_at(&mut buffer, &layout, 0, "é".as_bytes()),
        Err(SbeError::InvalidStringValue(_))
    ));
    assert_eq!(
        encoder.put_slice_at(&mut buffer, &layout, 0, "é".as_bytes()),
        Err(SbeError::InvalidStringValue(text("é")))
    );
    let mut small = vec![0u8; 4];
    assert!(matches!(
        encoder.put_slice_at(&mut small, &layout, 0, b"abcdef"),
        Err(SbeError::CodecOutOfBounds(_, 4))
    ));
}

fn fuel_figures() -> GroupLayout {
    GroupLayout {
        name: text("fuelFigures"),
        dimension_size: 4,
        block_length_size: 2,
        num_in_group_size: 2,
        block_length: 6,
        nested: vec![NestedName {
            name: text("usage_description"),
            is_group: false,
        }],
    }
}

#[test]
fn group_entries_are_counted() {
    let layout = fuel_figures();
    let descriptions: [&[u8]; 3] = [b"Urban Cycle", b"Combined Cycle", b"Highway Cycle"];
    let speeds = [30i128, 55, 75];
    let text_layout = VarDataLayout {
        name: text("usage_description"),
        prefix_size: 4,
        element: Primitive::UInt8,
        ascii_only: false,
    };
    for order in [LE, BE] {
        let mut buffer = vec![0u8; 128];
        let start = 10;
        let mut encoder = GroupEncoder::new(&layout, start);
        assert_eq!(encoder.size(), 4);
        for i in 0..3 {
            let entry = start + encoder.size();
            ScalarField::new("speed", entry, Primitive::UInt16)
                .encode_required(&mut buffer, order, speeds[i])
                .unwrap();
            let mut description = VarDataEncoder::new(entry + layout.block_length);
            description
                .put_slice_at(&mut buffer, &text_layout, 0, descriptions[i])
                .unwrap();
            description.finalize(&mut buffer, order, &text_layout).unwrap();
            encoder.record(0, description.size(&text_layout).unwrap());
            encoder.advance(&layout).unwrap();
        }
        encoder.finalize(&mut buffer, order, &layout).unwrap();
        assert_eq!(encoder.num_in_group, 3);
        assert_eq!(encoder.size(), 4 + 3 * (6 + 4) + 11 + 14 + 13);

        let mut decoder = GroupDecoder::new(&buffer, order, &layout, start).unwrap();
        assert_eq!(decoder.block_length, 6);
        assert_eq!(decoder.num_in_group, 3);
        assert_eq!(decoder.size(), None);
        for i in 0..3 {
            let entry = start + decoder.size;
            assert_eq!(
                ScalarField::new("speed", entry, Primitive::UInt16).decode_required(&buffer, order),
                Ok(speeds[i])
            );
            let description = VarDataDecoder::new(entry + decoder.block_length);
            let length = description.length(&buffer, order, &text_layout) as usize;
            assert_eq!(
                description
                    .get_slice_at(&buffer, &text_layout, 0, length)
                    .unwrap(),
                descriptions[i]
            );
            decoder.record(0, description.size(&buffer, order, &text_layout).unwrap());
            decoder.advance(&layout).unwrap();
        }
        assert_eq!(decoder.size(), Some(encoder.size()));
        assert_eq!(
            decoder.advance(&layout),
            Err(SbeError::GroupOutOfBounds(text("fuelFigures")))
        );
    }
}

#[test]
fn entry_cannot_be_left_before_its_parts_were_walked() {
    let layout = GroupLayout {
        nested: vec![
            NestedName {
                name: text("acceleration"),
                is_group: true,
            },
            NestedName {
                name: text("note"),
                is_group: false,
            },
        ],
        ..fuel_figures()
    };
    let mut encoder = GroupEncoder::new(&layout, 0);
    assert_eq!(
        encoder.advance(&layout),
        Err(SbeError::MissingGroupSize(text("acceleration")))
    );
    encoder.record(0, 12);
    assert_eq!(
        encoder.advance(&layout),
        Err(SbeError::MissingVarDataSize(text("note")))
    );
    // The size that was taken is gone.
    assert_eq!(encoder.sizes, vec![None, None]);
    encoder.record(0, 12);
    encoder.record(1, 5);
    assert_eq!(encoder.advance(&layout), Ok(()));
    assert_eq!(encoder.size(), 4 + 6 + 12 + 5);
    assert_eq!(encoder.num_in_group, 1);
    // The sizes belong to one entry only.
    assert_eq!(
        encoder.advance(&layout),
        Err(SbeError::MissingGroupSize(text("acceleration")))
    );
    let mut sizes = vec![Some(3), None, Some(4)];
    let names = vec![
        NestedName { name: text("a"), is_group: true },
        NestedName { name: text("b"), is_group: false },
        NestedName { name: text("c"), is_group: false },
    ];
    assert_eq!(
        take_sizes(&mut sizes, &names, "g"),
        Err(SbeError::MissingVarDataSize(text("b")))
    );
    assert_eq!(sizes, vec![None, None, Some(4)]);
}

#[test]
fn number_of_entries_must_fit_its_primitive() {
    let layout = GroupLayout {
        dimension_size: 2,
        block_length_size: 1,
        num_in_group_size: 1,
        block_length: 0,
        nested: vec![],
        ..fuel_figures()
    };
    let mut encoder = GroupEncoder::new(&layout, 0);
    for _ in 0..255 {
        encoder.advance(&layout).unwrap();
    }
    assert_eq!(
        encoder.advance(&layout),
        Err(SbeError::GroupOutOfBounds(text("num_in_group")))
    );
    assert_eq!(encoder.num_in_group, 255);
    let mut buffer = vec![0u8; 2];
    encoder.finalize(&mut buffer, LE, &layout).unwrap();
    assert_eq!(buffer, vec![0, 255]);
    let mut short = vec![0u8; 1];
    assert!(matches!(
        encoder.finalize(&mut short, LE, &layout),
        Err(SbeError::CodecOutOfBounds(_, 1))
    ));
    assert!(matches!(
        GroupDecoder::new(&short, LE, &layout, 0),
        Err(SbeError::CodecOutOfBounds(_, 1))
    ));
}

#[test]
fn empty_group_is_its_header() {
    let layout = fuel_figures();
    let mut buffer = vec![0xFFu8; 4];
    let encoder = GroupEncoder::new(&layout, 0);
    encoder.finalize(&mut buffer, LE, &layout).unwrap();
    assert_eq!(buffer, vec![6, 0, 0, 0]);
    let decoder = GroupDecoder::new(&buffer, LE, &layout, 0).unwrap();
    assert_eq!(decoder.num_in_group, 0);
    assert_eq!(decoder.size(), Some(4));
}

#[test]
fn decoder_refuses_another_template() {
    let header = standard_header();
    for order in [LE, BE] {
        let mut buffer = vec![0u8; 8];
        header.encode(&mut buffer, order, 46, 1, 7, 3).unwrap();
        assert_eq!(header.check(&buffer, order, 1), Ok(()));
        assert_eq!(
            header.check(&buffer, order, 2),
            Err(SbeError::WrongMessageType(1, 2))
        );
    }
    let mut buffer = vec![0u8; 8];
    header.encode(&mut buffer, LE, 46, 1, 7, 3).unwrap();
    assert_eq!(buffer, vec![46, 0, 1, 0, 7, 0, 3, 0]);
    let short = vec![0u8; 3];
    assert_eq!(
        header.check(&short, LE, 1),
        Err(SbeError::CodecOutOfBounds(4, 3))
    );
    let mut short = vec![0u8; 5];
    assert_eq!(
        header.encode(&mut short, LE, 46, 1, 7, 3),
        Err(SbeError::CodecOutOfBounds(6, 5))
    );
    assert_eq!(
        header.encode(&mut buffer, LE, 70_000, 1, 7, 3),
        Err(SbeError::ValueOutOfBounds {
            field_name: text("block_length"),
            message: text("70000 > 65535 (max)")
        })
    );
}

#[test]
fn minimum_message_is_header_block_and_empty_tails() {
    // A message of a header of 8 bytes, a block of 46, two empty groups with a header
    // of 4 bytes each and four empty variable-length fields with a prefix of 4, 4, 4
    // and 2 bytes.
    let sizes = vec![Some(4), Some(4), Some(4), Some(4), Some(4), Some(2)];
    assert_eq!(message_size(8, 46, &sizes), Some(8 + 46 + 4 + 4 + 4 + 4 + 4 + 2));
    assert_eq!(message_size(8, 46, &vec![]), Some(54));
    let unfinished = vec![Some(4), None, Some(4)];
    assert_eq!(message_size(8, 46, &unfinished), None);
    assert_eq!(message_size(usize::MAX, 1, &vec![]), None);
    assert_eq!(message_size(usize::MAX - 1, 0, &vec![Some(2)]), None);
}

#[test]
fn literals_of_the_schema_are_numbers() {
    assert_eq!(parse_signed("-17"), Some(-17));
    assert_eq!(parse_signed("17"), Some(17));
    assert_eq!(parse_signed("+17"), Some(17));
    assert_eq!(parse_signed("-"), None);
    assert_eq!(parse_signed(""), None);
    assert_eq!(parse_signed("1.5"), None);
    assert_eq!(literal_value("u8::MAX", Primitive::UInt8), Some(255));
    assert_eq!(literal_value("u8::MIN", Primitive::Char), Some(0));
    assert_eq!(literal_value("i16::MIN", Primitive::Int16), Some(-32768));
    assert_eq!(literal_value("i64::MAX", Primitive::Int64), Some(i64::MAX as i128));
    assert_eq!(literal_value("u64::MAX", Primitive::UInt64), Some(u64::MAX as i128));
    assert_eq!(literal_value("u16::MAX", Primitive::UInt8), None);
    assert_eq!(literal_value("100", Primitive::Int8), Some(100));
    assert_eq!(literal_value("200", Primitive::Int8), None);
    assert_eq!(literal_value("-1", Primitive::UInt8), None);
    assert_eq!(
        literal_value("f32::NAN", Primitive::Float),
        Some(Primitive::Float.null())
    );
    assert_eq!(literal_value("f32::MAX", Primitive::Float), None);
}

#[test]
fn variable_data_of_numbers_round_trips() {
    let layout = VarDataLayout {
        name: text("samples"),
        prefix_size: 2,
        element: Primitive::UInt32,
        ascii_only: false,
    };
    assert!(layout.valid());
    assert!(!layout.byte_access());
    for order in [LE, BE] {
        let mut buffer = vec![0u8; 20];
        let mut encoder = VarDataEncoder::new(1);
        encoder.put_at(&mut buffer, order, &layout, 0, 10).unwrap();
        encoder.put_at(&mut buffer, order, &layout, 2, 4_000_000_000).unwrap();
        encoder.put_at(&mut buffer, order, &layout, 1, 20).unwrap();
        assert_eq!(encoder.length, 3);
        assert_eq!(encoder.size(&layout), Some(2 + 3 * 4));
        encoder.finalize(&mut buffer, order, &layout).unwrap();
        let decoder = VarDataDecoder::new(1);
        assert_eq!(decoder.length(&buffer, order, &layout), 3);
        assert_eq!(decoder.size(&buffer, order, &layout), Some(14));
        assert_eq!(decoder.get_at(&buffer, order, &layout, 0), Ok(10));
        assert_eq!(decoder.get_at(&buffer, order, &layout, 1), Ok(20));
        assert_eq!(decoder.get_at(&buffer, order, &layout, 2), Ok(4_000_000_000));
        assert!(matches!(
            decoder.get_at(&buffer, order, &layout, 5),
            Err(SbeError::CodecOutOfBounds(_, 20))
        ));
    }
    let mut buffer = vec![0u8; 8];
    let mut encoder = VarDataEncoder::new(0);
    encoder.put_at(&mut buffer, LE, &layout, 0, 0x01020304).unwrap();
    encoder.finalize(&mut buffer, LE, &layout).unwrap();
    assert_eq!(&buffer[..6], &[1, 0, 4, 3, 2, 1]);
    assert_eq!(
        encoder.put_at(&mut buffer, LE, &layout, 65535, 1),
        Err(SbeError::VarDataOutOfBounds(text("samples")))
    );
    let ascii = VarDataLayout {
        name: text("code"),
        prefix_size: 1,
        element: Primitive::Char,
        ascii_only: true,
    };
    assert!(ascii.byte_access());
    assert_eq!(
        encoder.put_at(&mut buffer, LE, &ascii, 0, 200),
        Err(SbeError::InvalidStringValue(text("200")))
    );
    let wide = VarDataLayout {
        prefix_size: 9,
        ..ascii.clone()
    };
    assert!(!wide.valid());
}

#[test]
fn layouts_can_be_checked_before_use() {
    assert!(fuel_figures().valid());
    assert!(!GroupLayout {
        dimension_size: 3,
        ..fuel_figures()
    }
    .valid());
    assert!(!GroupLayout {
        block_length: 70_000,
        ..fuel_figures()
    }
    .valid());
    assert!(!GroupLayout {
        num_in_group_size: 0,
        ..fuel_figures()
    }
    .valid());
    assert!(standard_header().valid());
    let overlapping = HeaderLayout {
        schema_id: ScalarField::new("schema_id", 3, Primitive::UInt16),
        ..standard_header()
    };
    assert!(!overlapping.valid());
    let wide = HeaderLayout {
        template_id: ScalarField::new("template_id", 2, Primitive::UInt32),
        ..standard_header()
    };
    assert!(!wide.valid());
    assert!(ScalarField::new("x", 0, Primitive::Double).valid());
    assert!(!ScalarField {
        null_value: 300,
        ..ScalarField::new("x", 0, Primitive::UInt8)
    }
    .valid());
    assert!(!ScalarField {
        null_value: 0,
        ..ScalarField::new("x", 0, Primitive::Float)
    }
    .valid());
    let boost = EnumCodec {
        name: text("BoostType"),
        primitive: Primitive::Char,
        values: vec![84, 83],
        null_value: 0,
    };
    assert!(boost.valid());
    assert!(!EnumCodec {
        values: vec![84, 300],
        ..boost.clone()
    }
    .valid());
    let fields = vec![ScalarField::new("a", 0, Primitive::Int8)];
    assert!(block_fits(&fields, &vec![-128]));
    assert!(!block_fits(&fields, &vec![128]));
    assert!(!block_fits(&fields, &vec![1, 2]));
    assert!(!Primitive::Float.nan(-1));
}

#[test]
fn failures_say_what_went_wrong() {
    assert_eq!(
        SbeError::InvalidStringValue(text("héllo")).message(),
        "invalid ascii string: héllo"
    );
    assert_eq!(
        SbeError::InvalidEnumValue {
            named_type: text("Model"),
            value: text("9")
        }
        .message(),
        "invalid enum value for 'Model': 9"
    );
    assert_eq!(
        SbeError::ValueOutOfBounds {
            field_name: text("efficiency"),
            message: text("101 > 100 (max)")
        }
        .message(),
        "value out of bounds for field 'efficiency': 101 > 100 (max)"
    );
    assert_eq!(SbeError::WrongSliceSize(text("x")).message(), "wrong slice size: x");
    assert_eq!(
        SbeError::MissingGroupSize(text("g")).message(),
        "missing group size: g"
    );
    assert_eq!(
        SbeError::MissingVarDataSize(text("v")).message(),
        "missing var data size: v"
    );
    assert_eq!(
        SbeError::GroupOutOfBounds(text("g")).message(),
        "group out of bounds: g"
    );
    assert_eq!(
        SbeError::VarDataOutOfBounds(text("v")).message(),
        "var data out of bounds: v"
    );
    assert_eq!(
        SbeError::WrongMessageType(1, 2).message(),
        "received message had wrong type: 1, expected 2"
    );
    assert_eq!(
        SbeError::CodecOutOfBounds(15, 12).message(),
        "codec out of bounds: 15 > 12"
    );
}

#[test]
fn absent_text_is_the_null_in_every_byte() {
    let field = TextField {
        name: text("code"),
        offset: 2,
        length: 4,
        encoding: Some(CharacterEncoding::Ascii),
    };
    let mut buffer = vec![0x11u8; 8];
    field.encode_optional(&mut buffer, None, 0).unwrap();
    assert_eq!(buffer, vec![0x11, 0x11, 0, 0, 0, 0, 0x11, 0x11]);
    assert_eq!(field.decode_optional(&buffer, 0), Ok(None));
    // A text is padded with zeros and read back with its padding.
    field.encode_optional(&mut buffer, Some("ab"), 0).unwrap();
    assert_eq!(&buffer[2..6], b"ab\0\0");
    assert_eq!(field.decode_optional(&buffer, 0), Ok(Some(text("ab\0\0"))));
    // Another null sentinel may be declared.
    field.encode_optional(&mut buffer, None, b' ').unwrap();
    assert_eq!(&buffer[2..6], b"    ");
    assert_eq!(field.decode_optional(&buffer, b' '), Ok(None));
    assert_eq!(field.decode_optional(&buffer, 0), Ok(Some(text("    "))));
    // One byte that is not the null makes a text.
    buffer[4] = b'x';
    assert_eq!(field.decode_optional(&buffer, b' '), Ok(Some(text("  x "))));
    // Faults are those of a required text.
    assert_eq!(
        field.decode_optional(&buffer[..5], 0),
        Err(SbeError::CodecOutOfBounds(6, 5))
    );
    assert_eq!(
        field.encode_optional(&mut buffer, Some("h\u{e9}"), 0),
        Err(SbeError::InvalidStringValue(text("h\u{e9}")))
    );
    assert_eq!(&buffer[2..6], b"  x ");
    buffer[3] = 0xFF;
    assert!(matches!(
        field.decode_optional(&buffer, 0),
        Err(SbeError::InvalidStringValue(_))
    ));
    let mut short = vec![0u8; 5];
    assert_eq!(
        field.encode_optional(&mut short, None, 0),
        Err(SbeError::CodecOutOfBounds(6, 5))
    );
}

#[test]
fn prefix_beyond_the_buffer_is_told_with_both_numbers() {
    let layout = VarDataLayout {
        name: text("model"),
        prefix_size: 4,
        element: Primitive::UInt8,
        ascii_only: false,
    };
    let mut buffer = vec![7u8; 16];
    assert_eq!(
        VarDataEncoder::new(14).finalize(&mut buffer, LE, &layout),
        Err(SbeError::CodecOutOfBounds(18, 16))
    );
    assert_eq!(
        VarDataEncoder::new(usize::MAX - 1).finalize(&mut buffer, LE, &layout),
        Err(SbeError::CodecOutOfBounds(usize::MAX, 16))
    );
    assert_eq!(buffer, vec![7u8; 16]);
    assert_eq!(VarDataEncoder::new(12).finalize(&mut buffer, LE, &layout), Ok(()));
    assert_eq!(&buffer[12..], &[0, 0, 0, 0]);
}
