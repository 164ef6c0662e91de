#![allow(dead_code, unused_imports)]

use sbe_codegen::error::SchemaError;
use sbe_codegen::models::message::MessageType;
use sbe_codegen::models::schema::{MessageSchema, TypesSection, ValidatedMessageSchema};
use sbe_codegen::models::table::Table;
use sbe_codegen::models::types::composite_type::CompositeType;
use sbe_codegen::models::types::encoded_data_type::EncodedDataType;
use sbe_codegen::models::types::enum_type::{EnumType, ValidValue};
use sbe_codegen::models::types::field_type::FieldType;
use sbe_codegen::models::types::group_type::GroupType;
use sbe_codegen::models::types::primitive_type::{
    NativeType, PrimitiveConvertible, ResolvableType,
};
use sbe_codegen::models::types::reference_type::ReferenceType;
use sbe_codegen::models::types::set_type::{Choice, SetType};
use sbe_codegen::models::types::variable_data_type::VariableDataType;
use sbe_codegen::models::types::{CharacterEncoding, MessageField, Presence, SizedEncoded, Type};
use sbe_codegen::models::{ByteOrder, MessageTypeMap, TypeMap};
use sbe_codegen::generator::common::{field_groups, variable_value_type, FieldMetadata};
use sbe_codegen::generator::rust::codecs::composite_type::{
    codec_name, composite_codec, default_value, field_accessor, null_value_condition, value_type,
    CodecSide, FieldAccessor, RustCompositeDecoderGenerator, RustCompositeEncoderGenerator,
    ValueShape,
};
use sbe_codegen::generator::rust::codecs::enum_type::enum_codec;
use sbe_codegen::generator::rust::codecs::group_type::{dimension_type, group_codec};
use sbe_codegen::generator::rust::codecs::message_type::message_codec;
use sbe_codegen::generator::rust::codecs::set_type::set_codec;
use sbe_codegen::generator::rust::codecs::var_data_type::{repr_type_metadata, var_data_codec};
use sbe_codegen::generator::rust::decoder::read_conversion;
use sbe_codegen::generator::rust::encoder::write_conversion;
use sbe_codegen::generator::rust::module::ModuleGenerator;
use sbe_codegen::wire::error::SbeError;
use sbe_codegen::wire::group::{GroupDecoder, GroupEncoder, NestedName};
use sbe_codegen::wire::layout::{group_layout, header_layout, scalar_field, var_data_layout};
use sbe_codegen::wire::scalar::Primitive;
use sbe_codegen::wire::var_data::{VarDataDecoder, VarDataEncoder};

fn text(s: &str) -> String {
    s.to_string()
}

fn encoded(name: &str, primitive: NativeType) -> EncodedDataType {
    EncodedDataType {
        name: text(name),
        since_version: None,
        deprecated: None,
        semantic_type: None,
        description: None,
        offset: None,
        presence: Presence::Required,
        null_value: None,
        min_value: None,
        max_value: None,
        length: None,
        primitive_type: primitive,
        character_encoding: None,
        default_value: None,
    }
}

fn constant(name: &str, primitive: NativeType, literal: &str) -> EncodedDataType {
    EncodedDataType {
        presence: Presence::Constant,
        default_value: Some(text(literal)),
        ..encoded(name, primitive)
    }
}

fn reference(name: &str, target: &str) -> Type {
    Type::Reference(ReferenceType {
        name: text(name),
        since_version: None,
        deprecated: None,
        offset: None,
        type_ref: text(target),
    })
}

fn valid_value(name: &str, value: &str) -> ValidValue {
    ValidValue {
        name: text(name),
        since_version: None,
        deprecated: None,
        description: None,
        value: text(value),
    }
}

fn enumeration(name: &str, encoding: NativeType, values: &[(&str, &str)]) -> EnumType {
    EnumType {
        name: text(name),
        since_version: None,
        deprecated: None,
        semantic_type: None,
        description: None,
        offset: None,
        encoding_type: encoding,
        values: values.iter().map(|(n, v)| valid_value(n, v)).collect(),
    }
}

fn bit_set(name: &str, encoding: NativeType, choices: &[(&str, u64)]) -> SetType {
    SetType {
        name: text(name),
        since_version: None,
        deprecated: None,
        semantic_type: None,
        description: None,
        offset: None,
        encoding_type: encoding,
        choices: choices
            .iter()
            .map(|(n, v)| Choice {
                name: text(n),
                since_version: None,
                deprecated: None,
                description: None,
                value: *v,
            })
            .collect(),
    }
}

fn composite(name: &str, fields: Vec<Type>) -> CompositeType {
    CompositeType {
        name: text(name),
        since_version: None,
        deprecated: None,
        semantic_type: None,
        description: None,
        offset: None,
        fields,
    }
}

fn field(name: &str, id: u16, type_ref: &str) -> FieldType {
    FieldType {
        name: text(name),
        id,
        since_version: None,
        deprecated: None,
        semantic_type: None,
        description: None,
        offset: None,
        presence: Presence::Required,
        type_ref: text(type_ref),
        epoch: None,
        value_ref: None,
    }
}

fn group(name: &str, id: u16, fields: Vec<MessageField>) -> GroupType {
    GroupType {
        name: text(name),
        id,
        block_length: None,
        dimension_type: None,
        semantic_type: None,
        description: None,
        since_version: None,
        deprecated: None,
        fields,
    }
}

fn var_data(name: &str, id: u16, type_ref: &str) -> VariableDataType {
    VariableDataType {
        name: text(name),
        id,
        type_ref: text(type_ref),
        semantic_type: None,
        description: None,
        since_version: None,
        deprecated: None,
    }
}

/// The car schema of the SBE examples, as far as the tests need it.
fn car_schema() -> MessageSchema {
    let header = composite(
        "messageHeader",
        vec![
            Type::EncodedData(encoded("blockLength", NativeType::UInt16)),
            Type::EncodedData(encoded("templateId", NativeType::UInt16)),
            Type::EncodedData(encoded("schemaId", NativeType::UInt16)),
            Type::EncodedData(encoded("version", NativeType::UInt16)),
        ],
    );
    let group_size = composite(
        "groupSizeEncoding",
        vec![
            Type::EncodedData(encoded("blockLength", NativeType::UInt16)),
            Type::EncodedData(encoded("numInGroup", NativeType::UInt16)),
        ],
    );
    let var_string = composite(
        "varStringEncoding",
        vec![
            Type::EncodedData(EncodedDataType {
                max_value: Some(text("1073741824")),
                ..encoded("length", NativeType::UInt32)
            }),
            Type::EncodedData(EncodedDataType {
                length: Some(0),
                character_encoding: Some(CharacterEncoding::Utf8),
                ..encoded("varData", NativeType::UInt8)
            }),
        ],
    );
    let var_ascii = composite(
        "varAsciiEncoding",
        vec![
            Type::EncodedData(encoded("length", NativeType::UInt32)),
            Type::EncodedData(EncodedDataType {
                length: Some(0),
                character_encoding: Some(CharacterEncoding::Ascii),
                ..encoded("varData", NativeType::UInt8)
            }),
        ],
    );
    let var_numbers = composite(
        "varNumbers",
        vec![
            Type::EncodedData(encoded("length", NativeType::UInt16)),
            Type::EncodedData(encoded("varData", NativeType::UInt32)),
        ],
    );
    let booster = composite(
        "Booster",
        vec![
            Type::Enum(enumeration(
                "BoostType",
                NativeType::Char,
                &[("TURBO", "T"), ("SUPERCHARGER", "S"), ("NITROUS", "N"), ("KERS", "K")],
            )),
            Type::EncodedData(encoded("horsePower", NativeType::UInt8)),
        ],
    );
    let engine = composite(
        "Engine",
        vec![
            Type::EncodedData(encoded("capacity", NativeType::UInt16)),
            Type::EncodedData(encoded("numCylinders", NativeType::UInt8)),
            Type::EncodedData(constant("maxRpm", NativeType::UInt16, "9000")),
            Type::EncodedData(EncodedDataType {
                length: Some(3),
                ..encoded("manufacturerCode", NativeType::Char)
            }),
            Type::EncodedData(constant("fuel", NativeType::Char, "Petrol")),
            Type::EncodedData(EncodedDataType {
                min_value: Some(text("0")),
                max_value: Some(text("100")),
                ..encoded("efficiency", NativeType::Int8)
            }),
            reference("boosterEnabled", "BooleanType"),
            reference("booster", "Booster"),
        ],
    );
    let types = vec![
        Type::Composite(header),
        Type::Composite(group_size),
        Type::Composite(var_string),
        Type::Composite(var_ascii),
        Type::Composite(var_numbers),
        Type::EncodedData(encoded("ModelYear", NativeType::UInt16)),
        Type::EncodedData(EncodedDataType {
            length: Some(6),
            character_encoding: Some(CharacterEncoding::Ascii),
            ..encoded("VehicleCode", NativeType::Char)
        }),
        Type::EncodedData(EncodedDataType {
            length: Some(4),
            ..encoded("someNumbers", NativeType::UInt32)
        }),
        Type::EncodedData(EncodedDataType {
            presence: Presence::Optional,
            ..encoded("Percentage", NativeType::Int8)
        }),
        Type::EncodedData(EncodedDataType {
            presence: Presence::Optional,
            ..encoded("Ratio", NativeType::Float)
        }),
        Type::Composite(booster),
        Type::Composite(engine),
        Type::Enum(enumeration("BooleanType", NativeType::UInt8, &[("F", "0"), ("T", "1")])),
        Type::Enum(enumeration("Model", NativeType::Char, &[("A", "A"), ("B", "B"), ("C", "C")])),
        Type::BitSet(bit_set(
            "OptionalExtras",
            NativeType::UInt8,
            &[("sunRoof", 0), ("sportsPack", 1), ("cruiseControl", 2)],
        )),
    ];
    let acceleration = group(
        "acceleration",
        15,
        vec![
            MessageField::Field(field("mph", 16, "uint16")),
            MessageField::Field(field("seconds", 17, "float")),
        ],
    );
    let car = MessageType {
        name: text("Car"),
        id: 1,
        block_length: None,
        semantic_type: None,
        description: Some(text("Description of a basic Car")),
        since_version: None,
        deprecated: None,
        fields: vec![
            MessageField::Field(field("serialNumber", 1, "uint64")),
            MessageField::Field(field("modelYear", 2, "ModelYear")),
            MessageField::Field(field("available", 3, "BooleanType")),
            MessageField::Field(field("code", 4, "Model")),
            MessageField::Field(field("someNumbers", 5, "someNumbers")),
            MessageField::Field(field("vehicleCode", 6, "VehicleCode")),
            MessageField::Field(field("extras", 7, "OptionalExtras")),
            MessageField::Field(FieldType {
                presence: Presence::Constant,
                value_ref: Some(text("Model.C")),
                ..field("discountedModel", 8, "Model")
            }),
            MessageField::Field(field("engine", 9, "Engine")),
            MessageField::Field(FieldType {
                presence: Presence::Optional,
                ..field("discount", 10, "Percentage")
            }),
            MessageField::Group(group(
                "fuelFigures",
                11,
                vec![
                    MessageField::Field(field("speed", 12, "uint16")),
                    MessageField::Field(field("mpg", 13, "float")),
                    MessageField::VariableData(var_data("usageDescription", 200, "varStringEncoding")),
                ],
            )),
            MessageField::Group(group(
                "performanceFigures",
                14,
                vec![
                    MessageField::Field(field("octaneRating", 15, "uint8")),
                    MessageField::Group(acceleration),
                ],
            )),
            MessageField::VariableData(var_data("manufacturer", 18, "varStringEncoding")),
            MessageField::VariableData(var_data("model", 19, "varStringEncoding")),
            MessageField::VariableData(var_data("activationCode", 20, "varAsciiEncoding")),
            MessageField::VariableData(var_data("samples", 21, "varNumbers")),
        ],
    };
    MessageSchema {
        package: text("baseline"),
        id: 1,
        version: 0,
        semantic_version: Some(text("5.2")),
        description: Some(text("Example base schema")),
        byte_order: Some(ByteOrder::LittleEndian),
        header_type: None,
        types_section: vec![TypesSection { types }],
        message_types: vec![car],
    }
}

fn car() -> ValidatedMessageSchema {
    car_schema().validate().unwrap()
}

fn value_of(accessor: &FieldAccessor) -> &sbe_codegen::generator::rust::codecs::composite_type::ValueAccessor {
    match accessor {
        FieldAccessor::Value(v) => v,
        other => panic!("a value accessor was expected, not {:?}", other),
    }
}

#[test]
fn field_metadata_of_an_array() {
    let types = car().types;
    let numbers = EncodedDataType {
        length: Some(4),
        ..encoded("someNumbers", NativeType::UInt32)
    };
    let metadata = FieldMetadata::from("someNumbers", &numbers, &types).unwrap();
    assert_eq!(metadata.field_name, "some_numbers");
    assert_eq!(metadata.field_primitive_type, NativeType::UInt32);
    assert_eq!(metadata.type_size, 4);
    assert_eq!(metadata.field_length, 4);
    assert_eq!(metadata.lang_type.name, "u32");
    assert_eq!(metadata.encoding, None);
}

#[test]
fn field_metadata_resolves_references() {
    let types = car().types;
    let year = encoded("year", NativeType::Reference(text("ModelYear")));
    let metadata = FieldMetadata::from("theYear", &year, &types).unwrap();
    assert_eq!(metadata.field_name, "the_year");
    assert_eq!(metadata.field_primitive_type, NativeType::UInt16);
    assert_eq!(metadata.type_size, 2);
    assert_eq!(metadata.field_length, 1);
    assert_eq!(metadata.lang_type.name, "u16");
    let unknown = encoded("x", NativeType::Reference(text("Booster")));
    assert_eq!(
        FieldMetadata::from("x", &unknown, &types).unwrap_err(),
        SchemaError::UnknownEncodedType(text("Booster"))
    );
}

#[test]
fn value_types_of_decoders_and_encoders() {
    assert_eq!(variable_value_type(&NativeType::Char, "u8", 6), "String");
    assert_eq!(variable_value_type(&NativeType::UInt32, "u32", 4), "[u32; 4]");
    assert_eq!(variable_value_type(&NativeType::UInt32, "u32", 1), "u32");
    assert_eq!(variable_value_type(&NativeType::Char, "u8", 1), "u8");
    assert_eq!(variable_value_type(&NativeType::Int16, "i16", 120), "[i16; 120]");
    assert_eq!(value_type(&NativeType::Char, "u8", 6), "&str");
    assert_eq!(value_type(&NativeType::UInt32, "u32", 4), "&[u32; 4]");
    assert_eq!(value_type(&NativeType::UInt32, "u32", 0), "u32");
}

#[test]
fn literals_of_constants() {
    assert_eq!(default_value("Petrol", &NativeType::Char), "\"Petrol\"");
    assert_eq!(default_value("9000", &NativeType::UInt16), "9000");
}

#[test]
fn null_is_told_by_equality_or_by_a_predicate() {
    let percentage = encoded("p", NativeType::Int8);
    assert_eq!(
        null_value_condition("value", &NativeType::Int8, &percentage).unwrap(),
        "value == i8::MIN"
    );
    let declared = EncodedDataType {
        null_value: Some(text("-1")),
        ..encoded("p", NativeType::Int8)
    };
    assert_eq!(
        null_value_condition("part", &NativeType::Int8, &declared).unwrap(),
        "part == -1"
    );
    let ratio = encoded("r", NativeType::Float);
    assert_eq!(
        null_value_condition("value", &NativeType::Float, &ratio).unwrap(),
        "value.is_nan()"
    );
    let declared_nan = EncodedDataType {
        null_value: Some(text("NAN")),
        ..encoded("r", NativeType::Double)
    };
    assert_eq!(
        null_value_condition("value", &NativeType::Double, &declared_nan).unwrap(),
        "value.is_nan()"
    );
}

#[test]
fn codec_names() {
    assert_eq!(codec_name("fuelFigures", CodecSide::Decoder), "FuelFiguresDecoder");
    assert_eq!(codec_name("messageHeader", CodecSide::Encoder), "MessageHeaderEncoder");
    assert_eq!(read_conversion(ByteOrder::LittleEndian), "from_le_bytes");
    assert_eq!(read_conversion(ByteOrder::BigEndian), "from_be_bytes");
    assert_eq!(write_conversion(ByteOrder::LittleEndian), "to_le_bytes");
    assert_eq!(write_conversion(ByteOrder::BigEndian), "to_be_bytes");
}

#[test]
fn engine_decoder_is_laid_out_by_prefix_sums() {
    let types = car().types;
    let engine = types.composite_types.get("Engine").unwrap();
    let plan = composite_codec(&types, engine).unwrap();
    assert_eq!(plan.name, "Engine");
    assert_eq!(plan.module_name, "engine");
    assert_eq!(plan.decoder_name, "EngineDecoder");
    assert_eq!(plan.encoder_name, "EngineEncoder");
    assert_eq!(plan.length_constant, "ENGINE_ENCODED_LENGTH");
    assert_eq!(plan.encoded_length, 10);
    assert_eq!(plan.decoder_fields.len(), 8);

    let capacity = value_of(&plan.decoder_fields[0]);
    assert_eq!(capacity.metadata.field_name, "capacity");
    assert_eq!(capacity.offset, 0);
    assert_eq!(capacity.shape, ValueShape::Single);
    assert_eq!(capacity.value_type, "u16");
    assert!(!capacity.optional);

    let cylinders = value_of(&plan.decoder_fields[1]);
    assert_eq!(cylinders.offset, 2);

    match &plan.decoder_fields[2] {
        FieldAccessor::Constant(c) => {
            assert_eq!(c.field_name, "max_rpm");
            assert_eq!(c.value_type, "u16");
            assert_eq!(c.value, "9000");
        }
        other => panic!("a constant was expected, not {:?}", other),
    }

    let code = value_of(&plan.decoder_fields[3]);
    assert_eq!(code.metadata.field_name, "manufacturer_code");
    assert_eq!(code.offset, 3);
    assert_eq!(code.shape, ValueShape::Text);
    assert_eq!(code.value_type, "String");
    assert_eq!(code.metadata.field_length, 3);

    match &plan.decoder_fields[4] {
        FieldAccessor::Constant(c) => {
            assert_eq!(c.field_name, "fuel");
            assert_eq!(c.value_type, "&'static str");
            assert_eq!(c.value, "\"Petrol\"");
        }
        other => panic!("a constant was expected, not {:?}", other),
    }

    let efficiency = value_of(&plan.decoder_fields[5]);
    assert_eq!(efficiency.offset, 6);
    assert_eq!(efficiency.min_value.as_deref(), Some("0"));
    assert_eq!(efficiency.max_value.as_deref(), Some("100"));
    assert_eq!(efficiency.value_type, "i8");

    match &plan.decoder_fields[6] {
        FieldAccessor::Enum(e) => {
            assert_eq!(e.field_name, "booster_enabled");
            assert_eq!(e.named_type, "BooleanType");
            assert_eq!(e.lang_type, "u8");
            assert_eq!(e.offset, 7);
        }
        other => panic!("an enum was expected, not {:?}", other),
    }
    match &plan.decoder_fields[7] {
        FieldAccessor::Composite(c) => {
            assert_eq!(c.field_name, "booster");
            assert_eq!(c.codec_name, "BoosterDecoder");
            assert_eq!(c.offset, 8);
        }
        other => panic!("a composite was expected, not {:?}", other),
    }
}

#[test]
fn engine_encoder_skips_constants() {
    let types = car().types;
    let engine = types.composite_types.get("Engine").unwrap();
    let plan = composite_codec(&types, engine).unwrap();
    assert_eq!(plan.encoder_fields.len(), 8);
    assert!(matches!(plan.encoder_fields[2], FieldAccessor::Skipped));
    assert!(matches!(plan.encoder_fields[4], FieldAccessor::Skipped));
    let code = value_of(&plan.encoder_fields[3]);
    assert_eq!(code.value_type, "&str");
    assert_eq!(code.offset, 3);
    match &plan.encoder_fields[7] {
        FieldAccessor::Composite(c) => assert_eq!(c.codec_name, "BoosterEncoder"),
        other => panic!("a composite was expected, not {:?}", other),
    }
}

#[test]
fn accessors_of_a_composite_do_not_overlap() {
    let types = car().types;
    for i in 0..types.composite_types.len() {
        let composite = types.composite_types.value_at(i);
        let plan = composite_codec(&types, composite).unwrap();
        let mut end = 0;
        for accessor in &plan.decoder_fields {
            if let FieldAccessor::Value(v) = accessor {
                assert!(v.offset >= end);
                end = v.offset + v.metadata.type_size * v.metadata.field_length;
            }
        }
        assert!(end <= plan.encoded_length);
    }
}

#[test]
fn optional_fields_carry_their_null() {
    let types = car().types;
    let percentage = types.find_type("Percentage").unwrap();
    let decoder = field_accessor(&types, CodecSide::Decoder, "discount", &percentage, 5).unwrap();
    let decoder = value_of(&decoder);
    assert!(decoder.optional);
    assert_eq!(decoder.null_condition.as_deref(), Some("value == i8::MIN"));
    assert_eq!(decoder.null_value, None);
    let encoder = field_accessor(&types, CodecSide::Encoder, "discount", &percentage, 5).unwrap();
    let encoder = value_of(&encoder);
    assert_eq!(encoder.null_value.as_deref(), Some("i8::MIN"));
    assert_eq!(encoder.null_condition, None);
    let ratio = types.find_type("Ratio").unwrap();
    let ratio = field_accessor(&types, CodecSide::Decoder, "ratio", &ratio, 0).unwrap();
    assert_eq!(value_of(&ratio).null_condition.as_deref(), Some("value.is_nan()"));
    let array = Type::EncodedData(EncodedDataType {
        presence: Presence::Optional,
        length: Some(3),
        min_value: Some(text("1")),
        ..encoded("triple", NativeType::UInt16)
    });
    let array = field_accessor(&types, CodecSide::Decoder, "triple", &array, 0).unwrap();
    let array = value_of(&array);
    assert_eq!(array.shape, ValueShape::Array);
    assert_eq!(array.null_condition.as_deref(), Some("part == u16::MAX"));
    // Bounds are checked on single values only.
    assert_eq!(array.min_value, None);
}

#[test]
fn generators_hand_out_the_accessors_of_their_side() {
    let types = car().types;
    let decoder = RustCompositeDecoderGenerator {
        types: &types,
        package: "baseline",
    };
    let encoder = RustCompositeEncoderGenerator {
        types: &types,
        package: "baseline",
    };
    let booster = types.composite_types.get("Booster").unwrap();
    let read = decoder.generate_decoder_fields(&booster.fields).unwrap();
    let written = encoder.generate_encoder_fields(&booster.fields).unwrap();
    assert_eq!(read.len(), 2);
    assert_eq!(written.len(), 2);
    match (&read[0], &written[0]) {
        (FieldAccessor::Enum(r), FieldAccessor::Enum(w)) => {
            assert_eq!(r.named_type, "BoostType");
            assert_eq!(w.offset, 0);
        }
        other => panic!("two enums were expected, not {:?}", other),
    }
    assert_eq!(value_of(&read[1]).offset, 1);
    let one = decoder
        .generate_decoder_field("madeUp", &reference("r", "Missing"), 0)
        .unwrap_err();
    assert_eq!(one, SchemaError::UnknownType(text("Missing")));
    assert!(matches!(
        encoder.generate_encoder_field("k", &Type::EncodedData(constant("k", NativeType::Char, "x")), 0),
        Ok(FieldAccessor::Skipped)
    ));
}

#[test]
fn constant_without_literal_is_rejected() {
    let types = car().types;
    let broken = Type::EncodedData(EncodedDataType {
        presence: Presence::Constant,
        ..encoded("brokenOne", NativeType::UInt8)
    });
    assert_eq!(
        field_accessor(&types, CodecSide::Decoder, "brokenOne", &broken, 0).unwrap_err(),
        SchemaError::ConstantWithoutValue(text("broken_one"))
    );
}

#[test]
fn children_are_sorted_by_kind() {
    let schema = car_schema();
    let (fields, groups, var_data) = field_groups(&schema.message_types[0].fields);
    assert_eq!(fields.len(), 10);
    assert_eq!(groups.len(), 2);
    assert_eq!(var_data.len(), 4);
    assert_eq!(fields[0].name, "serialNumber");
    assert_eq!(fields[9].name, "discount");
    assert_eq!(groups[1].name, "performanceFigures");
    assert_eq!(var_data[0].name, "manufacturer");
    let (none, _, _) = field_groups(&[]);
    assert!(none.is_empty());
}

#[test]
fn car_message_is_laid_out_after_the_header() {
    let schema = car();
    let car = schema.message_types.message_types.get("Car").unwrap();
    let plan = message_codec(&schema.types, car).unwrap();
    assert_eq!(plan.name, "Car");
    assert_eq!(plan.module_name, "car");
    assert_eq!(plan.decoder_name, "CarDecoder");
    assert_eq!(plan.encoder_name, "CarEncoder");
    assert_eq!(plan.id_constant, "CAR_ID");
    assert_eq!(plan.id, 1);
    assert_eq!(plan.header_size, 8);
    assert_eq!(plan.block_length, 46);
    assert_eq!(plan.header_decoder.field_name, "message_header");
    assert_eq!(plan.header_decoder.codec_name, "MessageHeaderDecoder");
    assert_eq!(plan.header_encoder.codec_name, "MessageHeaderEncoder");
    assert_eq!(plan.header_encoder.offset, 0);

    let offsets: Vec<Option<usize>> = plan
        .decoder_fields
        .iter()
        .map(|a| match a {
            FieldAccessor::Value(v) => Some(v.offset),
            FieldAccessor::Enum(e) | FieldAccessor::BitSet(e) => Some(e.offset),
            FieldAccessor::Composite(c) => Some(c.offset),
            _ => None,
        })
        .collect();
    assert_eq!(
        offsets,
        vec![
            Some(8),
            Some(16),
            Some(18),
            Some(19),
            Some(20),
            Some(36),
            Some(42),
            None,
            Some(43),
            Some(53)
        ]
    );
    match &plan.decoder_fields[7] {
        FieldAccessor::ConstantEnum(c) => {
            assert_eq!(c.field_name, "discounted_model");
            assert_eq!(c.named_type, "Model");
            assert_eq!(c.variant, "C");
        }
        other => panic!("a constant of an enum was expected, not {:?}", other),
    }
    assert!(matches!(plan.encoder_fields[7], FieldAccessor::Skipped));
    let numbers = value_of(&plan.encoder_fields[4]);
    assert_eq!(numbers.value_type, "&[u32; 4]");
    let discount = value_of(&plan.decoder_fields[9]);
    assert!(discount.optional);

    let groups: Vec<&str> = plan.groups.iter().map(|g| g.func_name.as_str()).collect();
    assert_eq!(groups, vec!["fuel_figures", "performance_figures"]);
    assert_eq!(plan.groups[0].size_field, "fuel_figures_size");
    assert_eq!(plan.groups[0].decoder_name, "FuelFiguresDecoder");
    assert_eq!(plan.groups[0].encoder_name, "FuelFiguresEncoder");
    let var_data: Vec<&str> = plan.var_data.iter().map(|g| g.func_name.as_str()).collect();
    assert_eq!(var_data, vec!["manufacturer", "model", "activation_code", "samples"]);
}

#[test]
fn group_has_a_dimension_header_and_a_block() {
    let schema = car();
    let fuel = schema.message_types.group_types.get("fuelFigures").unwrap();
    let plan = group_codec(&schema.types, fuel).unwrap();
    assert_eq!(plan.name, "fuelFigures");
    assert_eq!(plan.module_name, "fuel_figures");
    assert_eq!(plan.decoder_name, "FuelFiguresDecoder");
    assert_eq!(plan.dimension_decoder_name, "GroupSizeEncodingDecoder");
    assert_eq!(plan.dimension_size, 4);
    assert_eq!(plan.block_length_primitive, "u16");
    assert_eq!(plan.block_length_size, 2);
    assert_eq!(plan.num_in_group_primitive, "u16");
    assert_eq!(plan.block_length, 6);
    assert_eq!(plan.decoder_fields.len(), 2);
    assert_eq!(value_of(&plan.decoder_fields[0]).offset, 0);
    assert_eq!(value_of(&plan.decoder_fields[1]).offset, 2);
    assert_eq!(value_of(&plan.decoder_fields[1]).value_type, "f32");
    assert!(plan.groups.is_empty());
    assert_eq!(plan.var_data.len(), 1);
    assert_eq!(plan.var_data[0].func_name, "usage_description");

    let performance = schema
        .message_types
        .group_types
        .get("performanceFigures")
        .unwrap();
    let plan = group_codec(&schema.types, performance).unwrap();
    assert_eq!(plan.block_length, 1);
    assert_eq!(plan.groups.len(), 1);
    assert_eq!(plan.groups[0].func_name, "acceleration");
}

#[test]
fn group_needs_its_dimension_composite() {
    let schema = car();
    let types = &schema.types;
    let named = GroupType {
        dimension_type: Some(text("nowhere")),
        ..group("g", 1, vec![])
    };
    assert_eq!(
        group_codec(types, &named).unwrap_err(),
        SchemaError::MissingDimensionType {
            type_ref: text("nowhere"),
            group: text("g")
        }
    );
    assert_eq!(
        dimension_type(&group("g", 1, vec![]), &types.composite_types)
            .unwrap()
            .name,
        "groupSizeEncoding"
    );
    let mut odd = types.clone();
    odd.composite_types.insert(
        text("enumFirst"),
        composite(
            "enumFirst",
            vec![
                reference("blockLength", "ModelYear"),
                Type::EncodedData(encoded("numInGroup", NativeType::UInt8)),
            ],
        ),
    );
    odd.composite_types.insert(
        text("enumLast"),
        composite(
            "enumLast",
            vec![
                Type::EncodedData(encoded("blockLength", NativeType::UInt8)),
                reference("numInGroup", "ModelYear"),
            ],
        ),
    );
    odd.composite_types
        .insert(text("nothing"), composite("nothing", vec![]));
    let with = |dimension: &str| GroupType {
        dimension_type: Some(text(dimension)),
        ..group("g", 1, vec![])
    };
    assert_eq!(
        group_codec(&odd, &with("enumFirst")).unwrap_err(),
        SchemaError::BlockLengthNotEncoded(text("g"))
    );
    assert_eq!(
        group_codec(&odd, &with("enumLast")).unwrap_err(),
        SchemaError::NumInGroupNotEncoded(text("g"))
    );
    assert_eq!(
        group_codec(&odd, &with("nothing")).unwrap_err(),
        SchemaError::BlockLengthNotEncoded(text("g"))
    );
}

#[test]
fn constant_field_must_name_a_value_of_an_enum() {
    let schema = car();
    let types = &schema.types;
    let with = |f: FieldType| group("g", 1, vec![MessageField::Field(f)]);
    let constant_field = |type_ref: &str, value_ref: Option<&str>| FieldType {
        presence: Presence::Constant,
        value_ref: value_ref.map(text),
        ..field("fixed", 1, type_ref)
    };
    assert_eq!(
        group_codec(types, &with(constant_field("ModelYear", Some("Model.C")))).unwrap_err(),
        SchemaError::ConstantNotEnum(text("fixed"))
    );
    assert_eq!(
        group_codec(types, &with(constant_field("Model", None))).unwrap_err(),
        SchemaError::ConstantWithoutRef(text("fixed"))
    );
    assert_eq!(
        group_codec(types, &with(constant_field("Model", Some("C")))).unwrap_err(),
        SchemaError::ConstantWithoutRef(text("fixed"))
    );
    assert_eq!(
        group_codec(types, &with(constant_field("Model", Some("Model.Z")))).unwrap_err(),
        SchemaError::ConstantUnknownValue {
            field: text("fixed"),
            value: text("Z")
        }
    );
    let plan = group_codec(types, &with(constant_field("Model", Some("Model.B.more")))).unwrap();
    assert_eq!(plan.block_length, 0);
    match &plan.decoder_fields[0] {
        FieldAccessor::ConstantEnum(c) => assert_eq!(c.variant, "B"),
        other => panic!("a constant of an enum was expected, not {:?}", other),
    }
}

#[test]
fn variable_data_has_a_prefix_and_elements() {
    let schema = car();
    let manufacturer = schema
        .message_types
        .variable_data_types
        .get("manufacturer")
        .unwrap();
    let plan = var_data_codec(&schema.types, manufacturer).unwrap();
    assert_eq!(plan.name, "manufacturer");
    assert_eq!(plan.decoder_name, "ManufacturerDecoder");
    assert_eq!(plan.encoder_name, "ManufacturerEncoder");
    assert_eq!(plan.length.lang_type.name, "u32");
    assert_eq!(plan.length.type_size, 4);
    assert_eq!(plan.value.lang_type.name, "u8");
    assert_eq!(plan.value.type_size, 1);
    assert!(plan.byte_access);
    assert!(!plan.ascii_only);
    let code = schema
        .message_types
        .variable_data_types
        .get("activationCode")
        .unwrap();
    assert!(var_data_codec(&schema.types, code).unwrap().ascii_only);
    let samples = schema.message_types.variable_data_types.get("samples").unwrap();
    let plan = var_data_codec(&schema.types, samples).unwrap();
    assert!(!plan.byte_access);
    assert_eq!(plan.length.type_size, 2);
    assert_eq!(plan.value.type_size, 4);
    let dimension = schema.types.composite_types.get("groupSizeEncoding").unwrap();
    let (length, value) = repr_type_metadata("x", dimension, &schema.types).unwrap();
    assert_eq!(length.field_name, "");
    assert_eq!(value.type_size, 2);
    // A descriptor has a length and elements, and nothing more.
    let header = schema.types.composite_types.get("messageHeader").unwrap();
    assert_eq!(
        repr_type_metadata("x", header, &schema.types).unwrap_err(),
        SchemaError::VarDataShape(text("x"))
    );
    let booster = schema.types.composite_types.get("Booster").unwrap();
    assert_eq!(
        repr_type_metadata("x", booster, &schema.types).unwrap_err(),
        SchemaError::VarDataLengthNotEncoded(text("x"))
    );
    let mut odd = schema.types.clone();
    odd.composite_types.insert(
        text("odd"),
        composite(
            "odd",
            vec![
                Type::EncodedData(encoded("length", NativeType::UInt8)),
                reference("varData", "ModelYear"),
            ],
        ),
    );
    assert_eq!(
        var_data_codec(&odd, &var_data("o", 1, "odd")).unwrap_err(),
        SchemaError::VarDataValueNotEncoded(text("o"))
    );
}

#[test]
fn enum_codec_holds_values_and_null() {
    let schema = car();
    let boost = schema.types.enum_types.get("BoostType").unwrap();
    let plan = enum_codec(&schema.types, boost).unwrap();
    assert_eq!(plan.name, "BoostType");
    assert_eq!(plan.module_name, "boost_type");
    assert_eq!(plan.wrapped_name, "RustBoostType");
    assert_eq!(plan.lang_type, "u8");
    assert!(plan.char_encoding);
    assert_eq!(plan.null_value, "u8::MIN");
    let values: Vec<(&str, &str, u64)> = plan
        .values
        .iter()
        .map(|v| (v.variant.as_str(), v.member.as_str(), v.value))
        .collect();
    assert_eq!(
        values,
        vec![
            ("Turbo", "TURBO", 84),
            ("Supercharger", "SUPERCHARGER", 83),
            ("Nitrous", "NITROUS", 78),
            ("Kers", "KERS", 75)
        ]
    );
    let boolean = schema.types.enum_types.get("BooleanType").unwrap();
    let plan = enum_codec(&schema.types, boolean).unwrap();
    assert!(!plan.char_encoding);
    assert_eq!(plan.null_value, "u8::MAX");
    assert_eq!(plan.values[1].value, 1);
    let broken = enumeration("Broken", NativeType::UInt8, &[("ok", "1"), ("bad", "x")]);
    assert_eq!(
        enum_codec(&schema.types, &broken).unwrap_err(),
        SchemaError::InvalidEnumValue(text("x"))
    );
}

#[test]
fn set_codec_holds_flags() {
    let schema = car();
    let extras = schema.types.set_types.get("OptionalExtras").unwrap();
    let plan = set_codec(&schema.types, extras).unwrap();
    assert_eq!(plan.name, "OptionalExtras");
    assert_eq!(plan.module_name, "optional_extras");
    assert_eq!(plan.wrapped_name, "RustOptionalExtras");
    assert_eq!(plan.lang_type, "u8");
    let flags: Vec<(&str, u64)> = plan.choices.iter().map(|c| (c.name.as_str(), c.bit)).collect();
    assert_eq!(
        flags,
        vec![("sun_roof", 0), ("sports_pack", 1), ("cruise_control", 2)]
    );
}

#[test]
fn module_gathers_the_codecs_of_a_schema() {
    let schema = car();
    let module = ModuleGenerator::new(&schema);
    assert_eq!(module.enum_codecs().unwrap().len(), 3);
    assert_eq!(module.set_codecs().unwrap().len(), 1);
    assert_eq!(module.composite_codecs().unwrap().len(), 7);
    assert_eq!(module.group_codecs().unwrap().len(), 3);
    assert_eq!(module.var_data_codecs().unwrap().len(), 5);
    let messages = module.message_codecs().unwrap();
    assert_eq!(messages.len(), 1);
    assert_eq!(messages[0].name, "Car");
}

#[test]
fn module_reports_the_first_fault() {
    let mut raw = car_schema();
    raw.message_types[0]
        .fields
        .push(MessageField::VariableData(var_data("loose", 30, "nowhere")));
    let schema = raw.validate().unwrap();
    let module = ModuleGenerator::new(&schema);
    assert_eq!(
        module.var_data_codecs().unwrap_err(),
        SchemaError::MissingVarDataType {
            type_ref: text("nowhere"),
            name: text("loose")
        }
    );
    assert!(module.message_codecs().is_ok());
}

#[test]
fn header_of_the_schema_is_laid_out_for_the_wire() {
    let schema = car();
    let header = schema.types.composite_types.get("messageHeader").unwrap();
    let plan = composite_codec(&schema.types, header).unwrap();
    let layout = header_layout(&plan).unwrap();
    assert!(layout.valid());
    assert_eq!(layout.block_length.name, "block_length");
    assert_eq!(layout.block_length.offset, 0);
    assert_eq!(layout.template_id.offset, 2);
    assert_eq!(layout.schema_id.offset, 4);
    assert_eq!(layout.version.offset, 6);
    assert_eq!(layout.version.primitive, Primitive::UInt16);
    assert_eq!(layout.version.null_value, 65535);
    let mut buffer = vec![0u8; 8];
    layout.encode(&mut buffer, ByteOrder::BigEndian, 45, 1, 1, 0).unwrap();
    assert_eq!(buffer, vec![0, 45, 0, 1, 0, 1, 0, 0]);
    assert_eq!(layout.check(&buffer, ByteOrder::BigEndian, 1), Ok(()));
    assert_eq!(
        layout.check(&buffer, ByteOrder::BigEndian, 9),
        Err(SbeError::WrongMessageType(1, 9))
    );
    // A field without an element is no single value on the wire.
    let var_string = schema.types.composite_types.get("varStringEncoding").unwrap();
    let plan = composite_codec(&schema.types, var_string).unwrap();
    match (&plan.encoder_fields[0], &plan.encoder_fields[1]) {
        (FieldAccessor::Value(length), FieldAccessor::Value(data)) => {
            assert_eq!(scalar_field(length, "u32::MAX").unwrap().max_value, Some(1073741824));
            assert_eq!(data.metadata.field_length, 0);
            assert!(scalar_field(data, "u8::MAX").is_none());
        }
        other => panic!("{:?}", other),
    }
    // A composite without the four numbers is no header.
    let booster = schema.types.composite_types.get("Booster").unwrap();
    let plan = composite_codec(&schema.types, booster).unwrap();
    assert!(header_layout(&plan).is_none());
}

#[test]
fn group_of_the_schema_is_laid_out_for_the_wire() {
    let schema = car();
    let module = ModuleGenerator::new(&schema);
    let groups = module.group_codecs().unwrap();
    let plan = groups.iter().find(|g| g.name == "fuelFigures").unwrap();
    let layout = group_layout(plan);
    assert!(layout.valid());
    assert_eq!(layout.dimension_size, 4);
    assert_eq!(layout.block_length_size, 2);
    assert_eq!(layout.num_in_group_size, 2);
    assert_eq!(layout.block_length, 6);
    assert_eq!(
        layout.nested,
        vec![NestedName {
            name: text("usage_description"),
            is_group: false
        }]
    );
    let nested = groups.iter().find(|g| g.name == "performanceFigures").unwrap();
    let nested_layout = group_layout(nested);
    assert_eq!(nested_layout.block_length, 1);
    assert_eq!(
        nested_layout.nested,
        vec![NestedName {
            name: text("acceleration"),
            is_group: true
        }]
    );

    let speed = match &plan.encoder_fields[0] {
        FieldAccessor::Value(a) => scalar_field(a, "u16::MAX").unwrap(),
        other => panic!("{:?}", other),
    };
    assert_eq!(speed.offset, 0);
    let var_data = module.var_data_codecs().unwrap();
    let usage = var_data.iter().find(|v| v.name == "usageDescription").unwrap();
    let usage_layout = var_data_layout(usage).unwrap();
    assert!(usage_layout.valid());
    assert_eq!(usage_layout.prefix_size, 4);
    assert_eq!(usage_layout.element, Primitive::UInt8);
    assert!(!usage_layout.ascii_only);

    let order = ByteOrder::LittleEndian;
    let mut buffer = vec![0u8; 64];
    let mut encoder = GroupEncoder::new(&layout, 0);
    for (value, words) in [(30i128, "Urban"), (75, "Highway")] {
        let entry = encoder.size();
        let mut field = speed.clone();
        field.offset += entry;
        field.encode_required(&mut buffer, order, value).unwrap();
        let mut description = VarDataEncoder::new(entry + layout.block_length);
        description
            .put_slice_at(&mut buffer, &usage_layout, 0, words.as_bytes())
            .unwrap();
        description.finalize(&mut buffer, order, &usage_layout).unwrap();
        encoder.record(0, description.size(&usage_layout).unwrap());
        encoder.advance(&layout).unwrap();
    }
    encoder.finalize(&mut buffer, order, &layout).unwrap();
    assert_eq!(encoder.size(), 4 + 2 * (6 + 4) + 5 + 7);
    assert_eq!(&buffer[..6], &[6, 0, 2, 0, 30, 0]);

    let mut decoder = GroupDecoder::new(&buffer, order, &layout, 0).unwrap();
    assert_eq!(decoder.num_in_group, 2);
    let mut seen = Vec::new();
    for _ in 0..decoder.num_in_group {
        let entry = decoder.size;
        let mut field = speed.clone();
        field.offset += entry;
        let value = field.decode_required(&buffer, order).unwrap();
        let description = VarDataDecoder::new(entry + decoder.block_length);
        let length = description.length(&buffer, order, &usage_layout) as usize;
        let words = description
            .get_slice_at(&buffer, &usage_layout, 0, length)
            .unwrap()
            .to_vec();
        seen.push((value, words));
        decoder.record(0, description.size(&buffer, order, &usage_layout).unwrap());
        decoder.advance(&layout).unwrap();
    }
    assert_eq!(
        seen,
        vec![(30, b"Urban".to_vec()), (75, b"Highway".to_vec())]
    );
    assert_eq!(decoder.size(), Some(encoder.size()));
}

#[test]
fn variable_data_of_the_schema_is_laid_out_for_the_wire() {
    let schema = car();
    let module = ModuleGenerator::new(&schema);
    let var_data = module.var_data_codecs().unwrap();
    let code = var_data.iter().find(|v| v.name == "activationCode").unwrap();
    let layout = var_data_layout(code).unwrap();
    assert!(layout.ascii_only);
    let mut buffer = vec![0u8; 16];
    let mut encoder = VarDataEncoder::new(0);
    assert!(encoder
        .put_slice_at(&mut buffer, &layout, 0, "caf\u{e9}".as_bytes())
        .is_err());
    encoder.put_slice_at(&mut buffer, &layout, 0, b"abcdef").unwrap();
    let samples = var_data.iter().find(|v| v.name == "samples").unwrap();
    let layout = var_data_layout(samples).unwrap();
    assert_eq!(layout.prefix_size, 2);
    assert_eq!(layout.element, Primitive::UInt32);
    assert!(!layout.byte_access());
}

#[test]
fn every_byte_of_an_optional_text_is_tested_for_absence() {
    let types = car().types;
    let code = Type::EncodedData(EncodedDataType {
        presence: Presence::Optional,
        length: Some(6),
        ..encoded("code", NativeType::Char)
    });
    let decoder = field_accessor(&types, CodecSide::Decoder, "code", &code, 3).unwrap();
    match &decoder {
        FieldAccessor::Value(a) => {
            assert_eq!(a.shape, ValueShape::Text);
            assert!(a.optional);
            assert_eq!(a.null_condition.as_deref(), Some("part == u8::MIN"));
        }
        other => panic!("{:?}", other),
    }
    let encoder = field_accessor(&types, CodecSide::Encoder, "code", &code, 3).unwrap();
    match &encoder {
        FieldAccessor::Value(a) => {
            assert_eq!(a.null_value.as_deref(), Some("u8::MIN"));
            assert_eq!(a.metadata.field_length, 6);
        }
        other => panic!("{:?}", other),
    }
}

#[test]
fn nested_constructs_start_behind_those_declared_before_them() {
    let schema = car();
    let message = schema.message_types.message_types.get("Car").unwrap();
    let plan = message_codec(&schema.types, message).unwrap();
    let before = |n: &sbe_codegen::generator::rust::codecs::group_type::NestedCodec| -> Vec<(String, bool)> {
        n.preceding
            .iter()
            .map(|p| (p.size_field.clone(), p.of_group))
            .collect()
    };
    assert!(before(&plan.groups[0]).is_empty());
    assert_eq!(before(&plan.groups[1]), vec![(text("fuel_figures_size"), true)]);
    assert_eq!(
        before(&plan.var_data[0]),
        vec![
            (text("fuel_figures_size"), true),
            (text("performance_figures_size"), true)
        ]
    );
    assert_eq!(
        before(&plan.var_data[2]),
        vec![
            (text("fuel_figures_size"), true),
            (text("performance_figures_size"), true),
            (text("manufacturer_size"), false),
            (text("model_size"), false)
        ]
    );
    assert_eq!(plan.var_data[2].preceding[2].func_name, "manufacturer");
    let groups = ModuleGenerator::new(&schema).group_codecs().unwrap();
    let fuel = groups.iter().find(|g| g.name == "fuelFigures").unwrap();
    assert!(fuel.var_data[0].preceding.is_empty());
    let figures = groups.iter().find(|g| g.name == "performanceFigures").unwrap();
    assert!(figures.groups[0].preceding.is_empty());
}
