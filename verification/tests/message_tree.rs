#![allow(dead_code, unused_imports)]

use sbe_codegen::models::ByteOrder;
use sbe_codegen::wire::error::SbeError;
use sbe_codegen::wire::group::GroupLayout;
use sbe_codegen::wire::message::HeaderLayout;
use sbe_codegen::wire::scalar::{Primitive, ScalarField};
use sbe_codegen::wire::tree::decode::{decode_entry, decode_group, decode_message};
use sbe_codegen::wire::tree::encode::{encode_entry, encode_group, encode_message};
use sbe_codegen::wire::tree::runs::{byte_values, run_of};
use sbe_codegen::wire::text_field::TextField;
use sbe_codegen::models::types::CharacterEncoding;
use sbe_codegen::wire::tree::{BlockField, Entry, EntryLayout, GroupShape, MessageLayout};
use sbe_codegen::wire::var_data::VarDataLayout;

fn required(name: &str, offset: usize, primitive: Primitive) -> BlockField {
    BlockField {
        field: ScalarField::new(name, offset, primitive),
        optional: false,
    }
}

fn optional(name: &str, offset: usize, primitive: Primitive) -> BlockField {
    BlockField {
        field: ScalarField::new(name, offset, primitive),
        optional: true,
    }
}

fn run(name: &str, offset: usize, primitive: Primitive, _width: usize, length: usize) -> Vec<BlockField> {
    run_of(name, offset, primitive, length).unwrap()
}

fn header_of(name: &str, block_length: usize, _width: Primitive, size: usize) -> GroupLayout {
    GroupLayout {
        name: name.to_string(),
        dimension_size: 2 * size,
        block_length_size: size,
        num_in_group_size: size,
        block_length,
        nested: Vec::new(),
    }
}



fn text_layout(name: &str, ascii_only: bool) -> VarDataLayout {
    VarDataLayout {
        name: name.to_string(),
        prefix_size: 4,
        element: Primitive::UInt8,
        ascii_only,
    }
}

fn car_layout() -> MessageLayout {
    let mut fields = vec![
        required("serial_number", 0, Primitive::UInt64),
        required("model_year", 8, Primitive::UInt16),
        required("available", 10, Primitive::UInt8),
        required("code", 11, Primitive::Char),
    ];
    fields.extend(run("some_numbers", 12, Primitive::UInt32, 4, 4));
    fields.extend(run("vehicle_code", 28, Primitive::Char, 1, 6));
    fields.push(required("extras", 34, Primitive::UInt8));
    fields.push(required("capacity", 35, Primitive::UInt16));
    fields.push(required("num_cylinders", 37, Primitive::UInt8));
    fields.extend(run("manufacturer_code", 38, Primitive::Char, 1, 3));
    fields.push(BlockField {
        field: ScalarField {
            min_value: Some(0),
            max_value: Some(100),
            ..ScalarField::new("efficiency", 41, Primitive::Int8)
        },
        optional: false,
    });
    fields.push(required("booster_enabled", 42, Primitive::UInt8));
    fields.push(required("boost_type", 43, Primitive::Char));
    fields.push(required("horse_power", 44, Primitive::UInt8));
    fields.push(optional("discount", 45, Primitive::Int8));
    let fuel_figures = GroupShape {
        header: header_of("fuelFigures", 6, Primitive::UInt16, 2),
        entry: EntryLayout {
            fields: vec![
                required("speed", 0, Primitive::UInt16),
                required("mpg", 2, Primitive::Float),
            ],
            groups: Vec::new(),
            var_data: vec![text_layout("usageDescription", false)],
        },
    };
    let acceleration = GroupShape {
        header: header_of("acceleration", 6, Primitive::UInt16, 2),
        entry: EntryLayout {
            fields: vec![
                required("mph", 0, Primitive::UInt16),
                required("seconds", 2, Primitive::Float),
            ],
            groups: Vec::new(),
            var_data: Vec::new(),
        },
    };
    let performance_figures = GroupShape {
        header: header_of("performanceFigures", 1, Primitive::UInt16, 2),
        entry: EntryLayout {
            fields: vec![required("octane_rating", 0, Primitive::UInt8)],
            groups: vec![acceleration],
            var_data: Vec::new(),
        },
    };
    MessageLayout {
        header: HeaderLayout {
            block_length: ScalarField::new("block_length", 0, Primitive::UInt16),
            template_id: ScalarField::new("template_id", 2, Primitive::UInt16),
            schema_id: ScalarField::new("schema_id", 4, Primitive::UInt16),
            version: ScalarField::new("version", 6, Primitive::UInt16),
        },
        header_size: 8,
        template_id: 1,
        schema_id: 1,
        version: 0,
        block_length: 46,
        body: EntryLayout {
            fields,
            groups: vec![fuel_figures, performance_figures],
            var_data: vec![
                text_layout("manufacturer", false),
                text_layout("model", false),
                text_layout("activationCode", true),
            ],
        },
    }
}

fn number(v: i128) -> Option<i128> {
    Some(v)
}

fn float(v: f32) -> Option<i128> {
    Some(v.to_bits() as i128)
}

fn bytes_of(s: &str) -> Vec<i128> {
    s.bytes().map(|b| b as i128).collect()
}

fn leaf(values: Vec<Option<i128>>) -> Entry {
    Entry {
        values,
        groups: Vec::new(),
        var_data: Vec::new(),
    }
}

fn car_value() -> Entry {
    let mut values = vec![number(1234), number(2013), number(1), number('A' as i128)];
    values.extend([1, 2, 3, 4].map(number));
    values.extend("abcdef".bytes().map(|b| number(b as i128)));
    values.push(number(0b110));
    values.push(number(2000));
    values.push(number(4));
    values.extend("123".bytes().map(|b| number(b as i128)));
    values.push(number(35));
    values.push(number(1));
    values.push(number('N' as i128));
    values.push(number(200));
    values.push(None);
    let fuel = |speed: i128, mpg: f32, words: &str| Entry {
        values: vec![number(speed), float(mpg)],
        groups: Vec::new(),
        var_data: vec![bytes_of(words)],
    };
    let figures = |octane: i128, runs: [(i128, f32); 3]| Entry {
        values: vec![number(octane)],
        groups: vec![runs
            .iter()
            .map(|(mph, seconds)| leaf(vec![number(*mph), float(*seconds)]))
            .collect()],
        var_data: Vec::new(),
    };
    Entry {
        values,
        groups: vec![
            vec![
                fuel(30, 35.9, "Urban Cycle"),
                fuel(55, 49.0, "Combined Cycle"),
                fuel(75, 40.0, "Highway Cycle"),
            ],
            vec![
                figures(95, [(30, 4.0), (60, 7.5), (100, 12.2)]),
                figures(99, [(30, 3.8), (60, 7.1), (100, 11.8)]),
            ],
        ],
        var_data: vec![bytes_of("Honda"), bytes_of("Civic VTi"), bytes_of("abcdef")],
    }
}

#[test]
fn car_is_read_back_as_it_was_written() {
    let layout = car_layout();
    assert!(layout.valid());
    let car = car_value();
    assert!(car.fits(&layout.body, true));
    for order in [ByteOrder::LittleEndian, ByteOrder::BigEndian] {
        let bytes = encode_message(&layout, &car, order).unwrap();
        let fuel_figures = 4 + 3 * (6 + 4) + 11 + 14 + 13;
        let performance_figures = 4 + 2 * (1 + 4 + 3 * 6);
        let tails = (4 + 5) + (4 + 9) + (4 + 6);
        assert_eq!(bytes.len(), 8 + 46 + fuel_figures + performance_figures + tails);
        let (read, used) = decode_message(&layout, &bytes, order).unwrap();
        assert_eq!(used, bytes.len());
        assert_eq!(read, car);
        // What follows the message is not looked at.
        let mut longer = bytes.clone();
        longer.extend_from_slice(&[0xEE; 7]);
        let (read, used) = decode_message(&layout, &longer, order).unwrap();
        assert_eq!(used, bytes.len());
        assert_eq!(read, car);
    }
}

#[test]
fn car_bytes_stand_where_the_layout_says() {
    let layout = car_layout();
    let bytes = encode_message(&layout, &car_value(), ByteOrder::LittleEndian).unwrap();
    // The header: block length, template id, schema id, version.
    assert_eq!(&bytes[..8], &[46, 0, 1, 0, 1, 0, 0, 0]);
    // The serial number and the model year.
    assert_eq!(&bytes[8..18], &[0xD2, 0x04, 0, 0, 0, 0, 0, 0, 0xDD, 0x07]);
    assert_eq!(bytes[18], 1);
    assert_eq!(bytes[19], b'A');
    assert_eq!(&bytes[20..36], &[1, 0, 0, 0, 2, 0, 0, 0, 3, 0, 0, 0, 4, 0, 0, 0]);
    assert_eq!(&bytes[36..42], b"abcdef");
    assert_eq!(bytes[42], 6);
    assert_eq!(&bytes[43..45], &[0xD0, 0x07]);
    assert_eq!(bytes[45], 4);
    assert_eq!(&bytes[46..49], b"123");
    assert_eq!(bytes[49], 35);
    assert_eq!(bytes[50], 1);
    assert_eq!(bytes[51], b'N');
    assert_eq!(bytes[52], 200);
    // The absent discount is the least value of its primitive.
    assert_eq!(bytes[53], 0x80);
    // The first group: block length 6, three entries, then the first entry.
    assert_eq!(&bytes[54..58], &[6, 0, 3, 0]);
    assert_eq!(&bytes[58..60], &[30, 0]);
    assert_eq!(&bytes[60..64], &35.9f32.to_le_bytes());
    assert_eq!(&bytes[64..68], &[11, 0, 0, 0]);
    assert_eq!(&bytes[68..79], b"Urban Cycle");
    // The last bytes are the activation code.
    let n = bytes.len();
    assert_eq!(&bytes[n - 10..], b"\x06\0\0\0abcdef");
    let big = encode_message(&layout, &car_value(), ByteOrder::BigEndian).unwrap();
    assert_eq!(&big[..8], &[0, 46, 0, 1, 0, 1, 0, 0]);
    assert_eq!(&big[60..64], &35.9f32.to_be_bytes());
}

#[test]
fn minimum_message_is_header_block_and_empty_tails_of_the_tree() {
    let layout = car_layout();
    let mut car = car_value();
    car.groups = vec![Vec::new(), Vec::new()];
    car.var_data = vec![Vec::new(), Vec::new(), Vec::new()];
    assert!(car.fits(&layout.body, true));
    let bytes = encode_message(&layout, &car, ByteOrder::LittleEndian).unwrap();
    assert_eq!(bytes.len(), 8 + 46 + 2 * 4 + 3 * 4);
    assert_eq!(&bytes[54..62], &[6, 0, 0, 0, 1, 0, 0, 0]);
    assert_eq!(&bytes[62..], &[0u8; 12]);
    let (read, used) = decode_message(&layout, &bytes, ByteOrder::LittleEndian).unwrap();
    assert_eq!(read, car);
    assert_eq!(used, 74);
}

#[test]
fn one_field_changes_its_own_bytes_only() {
    let layout = car_layout();
    let first = encode_message(&layout, &car_value(), ByteOrder::LittleEndian).unwrap();
    let mut other = car_value();
    other.values[1] = number(513);
    let second = encode_message(&layout, &other, ByteOrder::LittleEndian).unwrap();
    assert_eq!(first.len(), second.len());
    let changed: Vec<usize> = (0..first.len()).filter(|i| first[*i] != second[*i]).collect();
    assert_eq!(changed, vec![16, 17]);
}

#[test]
fn another_template_is_refused_by_the_tree() {
    let layout = car_layout();
    let bytes = encode_message(&layout, &car_value(), ByteOrder::LittleEndian).unwrap();
    let other = MessageLayout {
        template_id: 2,
        ..car_layout()
    };
    assert_eq!(
        decode_message(&other, &bytes, ByteOrder::LittleEndian),
        Err(SbeError::WrongMessageType(1, 2))
    );
}

#[test]
fn truncated_bytes_are_refused() {
    let layout = car_layout();
    let bytes = encode_message(&layout, &car_value(), ByteOrder::LittleEndian).unwrap();
    assert_eq!(
        decode_message(&layout, &bytes[..5], ByteOrder::LittleEndian),
        Err(SbeError::CodecOutOfBounds(8, 5))
    );
    assert_eq!(
        decode_message(&layout, &bytes[..30], ByteOrder::LittleEndian),
        Err(SbeError::CodecOutOfBounds(46, 22))
    );
    // The header of the first group is cut.
    assert_eq!(
        decode_message(&layout, &bytes[..56], ByteOrder::LittleEndian),
        Err(SbeError::CodecOutOfBounds(4, 2))
    );
    // The words of the first entry are cut.
    assert_eq!(
        decode_message(&layout, &bytes[..70], ByteOrder::LittleEndian),
        Err(SbeError::CodecOutOfBounds(15, 6))
    );
    for cut in 0..bytes.len() {
        assert!(decode_message(&layout, &bytes[..cut], ByteOrder::LittleEndian).is_err());
    }
}

#[test]
fn values_out_of_bounds_are_refused_wherever_they_stand() {
    let layout = car_layout();
    let mut car = car_value();
    car.values[20] = number(101);
    assert!(car.fits(&layout.body, true));
    assert_eq!(
        encode_message(&layout, &car, ByteOrder::LittleEndian),
        Err(SbeError::ValueOutOfBounds {
            field_name: "efficiency".to_string(),
            message: "101 > 100 (max)".to_string()
        })
    );
    car.values[20] = number(-1);
    assert_eq!(
        encode_message(&layout, &car, ByteOrder::LittleEndian),
        Err(SbeError::ValueOutOfBounds {
            field_name: "efficiency".to_string(),
            message: "-1 < 0 (min)".to_string()
        })
    );
    // A bound of a field within a group.
    let group = GroupShape {
        header: header_of("limits", 1, Primitive::UInt8, 1),
        entry: EntryLayout {
            fields: vec![BlockField {
                field: ScalarField {
                    max_value: Some(9),
                    ..ScalarField::new("digit", 0, Primitive::UInt8)
                },
                optional: false,
            }],
            groups: Vec::new(),
            var_data: Vec::new(),
        },
    };
    assert!(group.valid());
    let mut out = Vec::new();
    let entries = vec![leaf(vec![number(3)]), leaf(vec![number(12)])];
    assert_eq!(
        encode_group(&group, &entries, ByteOrder::LittleEndian, &mut out),
        Err(SbeError::ValueOutOfBounds {
            field_name: "digit".to_string(),
            message: "12 > 9 (max)".to_string()
        })
    );
}

#[test]
fn text_of_an_ascii_field_must_be_ascii() {
    let layout = car_layout();
    let mut car = car_value();
    car.var_data[2] = bytes_of("h\u{e9}llo");
    assert!(car.fits(&layout.body, true));
    assert_eq!(
        encode_message(&layout, &car, ByteOrder::LittleEndian),
        Err(SbeError::InvalidStringValue("195".to_string()))
    );
    // The same text is let into a field of any text.
    car.var_data[2] = bytes_of("abcdef");
    car.var_data[1] = bytes_of("h\u{e9}llo");
    let bytes = encode_message(&layout, &car, ByteOrder::LittleEndian).unwrap();
    let (read, _) = decode_message(&layout, &bytes, ByteOrder::LittleEndian).unwrap();
    assert_eq!(read.var_data[1], bytes_of("h\u{e9}llo"));
}

#[test]
fn counts_must_fit_their_prefixes() {
    let group = GroupShape {
        header: header_of("small", 1, Primitive::UInt8, 1),
        entry: EntryLayout {
            fields: vec![required("digit", 0, Primitive::UInt8)],
            groups: Vec::new(),
            var_data: Vec::new(),
        },
    };
    assert!(group.valid());
    let order = ByteOrder::LittleEndian;
    let entries: Vec<Entry> = (0..255).map(|i| leaf(vec![number(i % 7)])).collect();
    let mut out = Vec::new();
    encode_group(&group, &entries, order, &mut out).unwrap();
    assert_eq!(out.len(), 2 + 255);
    assert_eq!(&out[..3], &[1, 255, 0]);
    let (read, used) = decode_group(&group, &out, order).unwrap();
    assert_eq!(used, 257);
    assert_eq!(read, entries);
    let entries: Vec<Entry> = (0..256).map(|i| leaf(vec![number(i % 7)])).collect();
    let mut out = Vec::new();
    assert_eq!(
        encode_group(&group, &entries, order, &mut out),
        Err(SbeError::GroupOutOfBounds("num_in_group".to_string()))
    );

    let layout = EntryLayout {
        fields: Vec::new(),
        groups: Vec::new(),
        var_data: vec![VarDataLayout {
            name: "short".to_string(),
            prefix_size: 1,
            element: Primitive::Int16,
            ascii_only: false,
        }],
    };
    assert!(layout.valid(0));
    let value = Entry {
        values: Vec::new(),
        groups: Vec::new(),
        var_data: vec![(0..255).map(|i| i - 100).collect()],
    };
    assert!(value.fits(&layout, true));
    let mut out = Vec::new();
    encode_entry(&layout, 0, &value, order, &mut out).unwrap();
    assert_eq!(out.len(), 1 + 2 * 255);
    assert_eq!(&out[..3], &[255, 0x9C, 0xFF]);
    let (read, used) = decode_entry(&layout, 0, &out, order).unwrap();
    assert_eq!(used, out.len());
    assert_eq!(read, value);
    let value = Entry {
        values: Vec::new(),
        groups: Vec::new(),
        var_data: vec![(0..256).collect()],
    };
    let mut out = Vec::new();
    assert_eq!(
        encode_entry(&layout, 0, &value, order, &mut out),
        Err(SbeError::VarDataOutOfBounds("short".to_string()))
    );
}

#[test]
fn shapes_and_values_can_be_checked_before_use() {
    let layout = car_layout();
    let mut car = car_value();
    // The null sentinel of an optional field would be read as absence.
    car.values[24] = number(-128);
    assert!(car.fits(&layout.body, false));
    assert!(!car.fits(&layout.body, true));
    let bytes = encode_message(&layout, &car, ByteOrder::LittleEndian).unwrap();
    let (read, _) = decode_message(&layout, &bytes, ByteOrder::LittleEndian).unwrap();
    assert_eq!(read.values[24], None);
    // A value that the primitive cannot hold.
    let mut car = car_value();
    car.values[1] = number(65536);
    assert!(!car.fits(&layout.body, false));
    // A required field without a value.
    let mut car = car_value();
    car.values[0] = None;
    assert!(!car.fits(&layout.body, false));
    // A group too few.
    let mut car = car_value();
    car.groups.pop();
    assert!(!car.fits(&layout.body, false));
    // An element that the primitive cannot hold.
    let mut car = car_value();
    car.var_data[0] = vec![256];
    assert!(!car.fits(&layout.body, false));
    // An entry of another shape, deep down.
    let mut car = car_value();
    car.groups[1][1].groups[0][2].values.pop();
    assert!(!car.fits(&layout.body, false));

    // Two fields that share a byte.
    let mut layout = car_layout();
    layout.body.fields[1] = required("model_year", 7, Primitive::UInt16);
    assert!(!layout.valid());
    // A field that ends beyond its block.
    let mut layout = car_layout();
    layout.block_length = 45;
    assert!(!layout.valid());
    // A header of a group that cannot hold its two numbers.
    let mut layout = car_layout();
    layout.body.groups[1].entry.groups[0].header.dimension_size = 3;
    assert!(!layout.valid());
    // A prefix of no byte.
    let mut layout = car_layout();
    layout.body.groups[0].entry.var_data[0].prefix_size = 0;
    assert!(!layout.valid());
}

#[test]
fn a_longer_block_of_the_writer_is_skipped() {
    // The header of a group tells the length of the blocks: a reader that knows fewer
    // fields reads what it knows and leaves the rest of each block alone.
    let written = GroupShape {
        header: header_of("points", 4, Primitive::UInt16, 2),
        entry: EntryLayout {
            fields: vec![
                required("x", 0, Primitive::Int16),
                required("y", 2, Primitive::Int16),
            ],
            groups: Vec::new(),
            var_data: Vec::new(),
        },
    };
    let read_as = GroupShape {
        header: header_of("points", 2, Primitive::UInt16, 2),
        entry: EntryLayout {
            fields: vec![required("x", 0, Primitive::Int16)],
            groups: Vec::new(),
            var_data: Vec::new(),
        },
    };
    assert!(written.valid() && read_as.valid());
    let order = ByteOrder::BigEndian;
    let entries = vec![
        leaf(vec![number(-1), number(5)]),
        leaf(vec![number(7), number(-9)]),
    ];
    let mut out = Vec::new();
    encode_group(&written, &entries, order, &mut out).unwrap();
    assert_eq!(out, vec![0, 4, 0, 2, 0xFF, 0xFF, 0, 5, 0, 7, 0xFF, 0xF7]);
    let (read, used) = decode_group(&read_as, &out, order).unwrap();
    assert_eq!(used, 12);
    assert_eq!(read, vec![leaf(vec![number(-1)]), leaf(vec![number(7)])]);
}

#[test]
fn arrays_and_texts_are_runs_of_single_fields() {
    let numbers = run_of("some_numbers", 12, Primitive::UInt32, 4).unwrap();
    let offsets: Vec<usize> = numbers.iter().map(|f| f.field.offset).collect();
    assert_eq!(offsets, vec![12, 16, 20, 24]);
    assert!(numbers.iter().all(|f| !f.optional && f.field.primitive == Primitive::UInt32));
    assert_eq!(run_of("none", 7, Primitive::Double, 0).unwrap().len(), 0);
    assert!(run_of("far", usize::MAX - 7, Primitive::UInt16, 4).is_none());
    assert!(run_of("far", usize::MAX - 8, Primitive::UInt16, 4).is_some());
    assert_eq!(
        byte_values(b"ab\0"),
        vec![Some(97), Some(98), Some(0)]
    );

    // A text written into its field and the same bytes written into the run of the
    // field give the same block.
    let field = TextField {
        name: "vehicle_code".to_string(),
        offset: 3,
        length: 6,
        encoding: Some(CharacterEncoding::Ascii),
    };
    let mut by_text = vec![0u8; 10];
    field.encode(&mut by_text, "abcd").unwrap();
    let layout = EntryLayout {
        fields: run_of("vehicle_code", 3, Primitive::Char, 6).unwrap(),
        groups: Vec::new(),
        var_data: Vec::new(),
    };
    assert!(layout.valid(10));
    let value = Entry {
        values: byte_values(b"abcd\0\0"),
        groups: Vec::new(),
        var_data: Vec::new(),
    };
    assert!(value.fits(&layout, true));
    for order in [ByteOrder::LittleEndian, ByteOrder::BigEndian] {
        let mut by_run = Vec::new();
        encode_entry(&layout, 10, &value, order, &mut by_run).unwrap();
        assert_eq!(by_run, by_text);
        let (read, used) = decode_entry(&layout, 10, &by_run, order).unwrap();
        assert_eq!(used, 10);
        assert_eq!(read, value);
    }
    assert_eq!(field.decode(&by_text).unwrap(), "abcd\0\0");
}
