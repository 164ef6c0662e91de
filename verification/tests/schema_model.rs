#![allow(dead_code, unused_imports)]

use sbe_codegen::error::SchemaError;
use sbe_codegen::generator::common::FieldMetadata;
use sbe_codegen::models::message::MessageType;
use sbe_codegen::models::schema::{MessageSchema, TypesSection, ValidatedMessageSchema};
use sbe_codegen::models::table::Table;
use sbe_codegen::models::types::composite_type::CompositeType;
use sbe_codegen::models::types::encoded_data_type::EncodedDataType;
use sbe_codegen::models::types::enum_type::{EnumType, ValidValue};
use sbe_codegen::models::types::field_type::FieldType;
use sbe_codegen::models::types::group_type::GroupType;
use sbe_codegen::models::types::primitive_type::{
    NativeType, PrimitiveConvertible, ResolvableType,
};
use sbe_codegen::models::types::reference_type::ReferenceType;
use sbe_codegen::models::types::set_type::{Choice, SetType};
use sbe_codegen::models::types::variable_data_type::VariableDataType;
use sbe_codegen::models::types::{CharacterEncoding, MessageField, Presence, SizedEncoded, Type};
use sbe_codegen::models::{ByteOrder, MessageTypeMap, TypeMap};

fn text(s: &str) -> String {
    s.to_string()
}

fn encoded(name: &str, primitive: NativeType) -> EncodedDataType {
    EncodedDataType {
        name: text(name),
        since_version: None,
        deprecated: None,
        semantic_type: None,
        description: None,
        offset: None,
        presence: Presence::Required,
        null_value: None,
        min_value: None,
        max_value: None,
        length: None,
        primitive_type: primitive,
        character_encoding: None,
        default_value: None,
    }
}

fn constant(name: &str, primitive: NativeType, literal: &str) -> EncodedDataType {
    EncodedDataType {
        presence: Presence::Constant,
        default_value: Some(text(literal)),
        ..encoded(name, primitive)
    }
}

fn reference(name: &str, target: &str) -> Type {
    Type::Reference(ReferenceType {
        name: text(name),
        since_version: None,
        deprecated: None,
        offset: None,
        type_ref: text(target),
    })
}

fn valid_value(name: &str, value: &str) -> ValidValue {
    ValidValue {
        name: text(name),
        since_version: None,
        deprecated: None,
        description: None,
        value: text(value),
    }
}

fn enumeration(name: &str, encoding: NativeType, values: &[(&str, &str)]) -> EnumType {
    EnumType {
        name: text(name),
        since_version: None,
        deprecated: None,
        semantic_type: None,
        description: None,
        offset: None,
        encoding_type: encoding,
        values: values.iter().map(|(n, v)| valid_value(n, v)).collect(),
    }
}

fn bit_set(name: &str, encoding: NativeType, choices: &[(&str, u64)]) -> SetType {
    SetType {
        name: text(name),
        since_version: None,
        deprecated: None,
        semantic_type: None,
        description: None,
        offset: None,
        encoding_type: encoding,
        choices: choices
            .iter()
            .map(|(n, v)| Choice {
                name: text(n),
                since_version: None,
                deprecated: None,
                description: None,
                value: *v,
            })
            .collect(),
    }
}

fn composite(name: &str, fields: Vec<Type>) -> CompositeType {
    CompositeType {
        name: text(name),
        since_version: None,
        deprecated: None,
        semantic_type: None,
        description: None,
        offset: None,
        fields,
    }
}

fn field(name: &str, id: u16, type_ref: &str) -> FieldType {
    FieldType {
        name: text(name),
        id,
        since_version: None,
        deprecated: None,
        semantic_type: None,
        description: None,
        offset: None,
        presence: Presence::Required,
        type_ref: text(type_ref),
        epoch: None,
        value_ref: None,
    }
}

fn group(name: &str, id: u16, fields: Vec<MessageField>) -> GroupType {
    GroupType {
        name: text(name),
        id,
        block_length: None,
        dimension_type: None,
        semantic_type: None,
        description: None,
        since_version: None,
        deprecated: None,
        fields,
    }
}

fn var_data(name: &str, id: u16, type_ref: &str) -> VariableDataType {
    VariableDataType {
        name: text(name),
        id,
        type_ref: text(type_ref),
        semantic_type: None,
        description: None,
        since_version: None,
        deprecated: None,
    }
}

/// The car schema of the SBE examples, as far as the tests need it.
fn car_schema() -> MessageSchema {
    let header = composite(
        "messageHeader",
        vec![
            Type::EncodedData(encoded("blockLength", NativeType::UInt16)),
            Type::EncodedData(encoded("templateId", NativeType::UInt16)),
            Type::EncodedData(encoded("schemaId", NativeType::UInt16)),
            Type::EncodedData(encoded("version", NativeType::UInt16)),
        ],
    );
    let group_size = composite(
        "groupSizeEncoding",
        vec![
            Type::EncodedData(encoded("blockLength", NativeType::UInt16)),
            Type::EncodedData(encoded("numInGroup", NativeType::UInt16)),
        ],
    );
    let var_string = composite(
        "varStringEncoding",
        vec![
            Type::EncodedData(EncodedDataType {
                max_value: Some(text("1073741824")),
                ..encoded("length", NativeType::UInt32)
            }),
            Type::EncodedData(EncodedDataType {
                length: Some(0),
                character_encoding: Some(CharacterEncoding::Utf8),
                ..encoded("varData", NativeType::UInt8)
            }),
        ],
    );
    let var_ascii = composite(
        "varAsciiEncoding",
        vec![
            Type::EncodedData(encoded("length", NativeType::UInt32)),
            Type::EncodedData(EncodedDataType {
                length: Some(0),
                character_encoding: Some(CharacterEncoding::Ascii),
                ..encoded("varData", NativeType::UInt8)
            }),
        ],
    );
    let var_numbers = composite(
        "varNumbers",
        vec![
            Type::EncodedData(encoded("length", NativeType::UInt16)),
            Type::EncodedData(encoded("varData", NativeType::UInt32)),
        ],
    );
    let booster = composite(
        "Booster",
        vec![
            Type::Enum(enumeration(
                "BoostType",
                NativeType::Char,
                &[("TURBO", "T"), ("SUPERCHARGER", "S"), ("NITROUS", "N"), ("KERS", "K")],
            )),
            Type::EncodedData(encoded("horsePower", NativeType::UInt8)),
        ],
    );
    let engine = composite(
        "Engine",
        vec![
            Type::EncodedData(encoded("capacity", NativeType::UInt16)),
            Type::EncodedData(encoded("numCylinders", NativeType::UInt8)),
            Type::EncodedData(constant("maxRpm", NativeType::UInt16, "9000")),
            Type::EncodedData(EncodedDataType {
                length: Some(3),
                ..encoded("manufacturerCode", NativeType::Char)
            }),
            Type::EncodedData(constant("fuel", NativeType::Char, "Petrol")),
            Type::EncodedData(EncodedDataType {
                min_value: Some(text("0")),
                max_value: Some(text("100")),
                ..encoded("efficiency", NativeType::Int8)
            }),
            reference("boosterEnabled", "BooleanType"),
            reference("booster", "Booster"),
        ],
    );
    let types = vec![
        Type::Composite(header),
        Type::Composite(group_size),
        Type::Composite(var_string),
        Type::Composite(var_ascii),
        Type::Composite(var_numbers),
        Type::EncodedData(encoded("ModelYear", NativeType::UInt16)),
        Type::EncodedData(EncodedDataType {
            length: Some(6),
            character_encoding: Some(CharacterEncoding::Ascii),
            ..encoded("VehicleCode", NativeType::Char)
        }),
        Type::EncodedData(EncodedDataType {
            length: Some(4),
            ..encoded("someNumbers", NativeType::UInt32)
        }),
        Type::EncodedData(EncodedDataType {
            presence: Presence::Optional,
            ..encoded("Percentage", NativeType::Int8)
        }),
        Type::EncodedData(EncodedDataType {
            presence: Presence::Optional,
            ..encoded("Ratio", NativeType::Float)
        }),
        Type::Composite(booster),
        Type::Composite(engine),
        Type::Enum(enumeration("BooleanType", NativeType::UInt8, &[("F", "0"), ("T", "1")])),
        Type::Enum(enumeration("Model", NativeType::Char, &[("A", "A"), ("B", "B"), ("C", "C")])),
        Type::BitSet(bit_set(
            "OptionalExtras",
            NativeType::UInt8,
            &[("sunRoof", 0), ("sportsPack", 1), ("cruiseControl", 2)],
        )),
    ];
    let acceleration = group(
        "acceleration",
        15,
        vec![
            MessageField::Field(field("mph", 16, "uint16")),
            MessageField::Field(field("seconds", 17, "float")),
        ],
    );
    let car = MessageType {
        name: text("Car"),
        id: 1,
        block_length: None,
        semantic_type: None,
        description: Some(text("Description of a basic Car")),
        since_version: None,
        deprecated: None,
        fields: vec![
            MessageField::Field(field("serialNumber", 1, "uint64")),
            MessageField::Field(field("modelYear", 2, "ModelYear")),
            MessageField::Field(field("available", 3, "BooleanType")),
            MessageField::Field(field("code", 4, "Model")),
            MessageField::Field(field("someNumbers", 5, "someNumbers")),
            MessageField::Field(field("vehicleCode", 6, "VehicleCode")),
            MessageField::Field(field("extras", 7, "OptionalExtras")),
            MessageField::Field(FieldType {
                presence: Presence::Constant,
                value_ref: Some(text("Model.C")),
                ..field("discountedModel", 8, "Model")
            }),
            MessageField::Field(field("engine", 9, "Engine")),
            MessageField::Field(FieldType {
                presence: Presence::Optional,
                ..field("discount", 10, "Percentage")
            }),
            MessageField::Group(group(
                "fuelFigures",
                11,
                vec![
                    MessageField::Field(field("speed", 12, "uint16")),
                    MessageField::Field(field("mpg", 13, "float")),
                    MessageField::VariableData(var_data("usageDescription", 200, "varStringEncoding")),
                ],
            )),
            MessageField::Group(group(
                "performanceFigures",
                14,
                vec![
                    MessageField::Field(field("octaneRating", 15, "uint8")),
                    MessageField::Group(acceleration),
                ],
            )),
            MessageField::VariableData(var_data("manufacturer", 18, "varStringEncoding")),
            MessageField::VariableData(var_data("model", 19, "varStringEncoding")),
            MessageField::VariableData(var_data("activationCode", 20, "varAsciiEncoding")),
            MessageField::VariableData(var_data("samples", 21, "varNumbers")),
        ],
    };
    MessageSchema {
        package: text("baseline"),
        id: 1,
        version: 0,
        semantic_version: Some(text("5.2")),
        description: Some(text("Example base schema")),
        byte_order: Some(ByteOrder::LittleEndian),
        header_type: None,
        types_section: vec![TypesSection { types }],
        message_types: vec![car],
    }
}

fn car() -> ValidatedMessageSchema {
    car_schema().validate().unwrap()
}

#[test]
fn test_parse_example_message_schema() {
    let schema = car_schema();
    let validated_schema = schema.validate().unwrap();
    println!("{:#?}", validated_schema);
    assert_eq!(validated_schema.package, "baseline");
    assert_eq!(validated_schema.byte_order, ByteOrder::LittleEndian);
    assert_eq!(validated_schema.types.header_type.name, "messageHeader");
}

#[test]
fn test_valid_composite_sizes() {
    let validated_schema = car();
    let type_map = validated_schema.types;

    assert_eq!(
        type_map
            .find_type("Engine")
            .unwrap()
            .size(&type_map)
            .unwrap(),
        10
    );
    assert_eq!(
        type_map
            .find_type("Booster")
            .unwrap()
            .size(&type_map)
            .unwrap(),
        2
    );
}

#[test]
fn primitive_sizes_follow_the_table() {
    let types = car().types;
    let expected = [
        (NativeType::Char, 1),
        (NativeType::UInt8, 1),
        (NativeType::UInt16, 2),
        (NativeType::UInt32, 4),
        (NativeType::UInt64, 8),
        (NativeType::Int8, 1),
        (NativeType::Int16, 2),
        (NativeType::Int32, 4),
        (NativeType::Int64, 8),
        (NativeType::Float, 4),
        (NativeType::Double, 8),
    ];
    for (kind, size) in expected {
        assert_eq!(kind.size(&types).unwrap(), size);
    }
}

#[test]
fn encoded_size_is_primitive_times_length() {
    let types = car().types;
    let numbers = types.find_type("someNumbers").unwrap();
    assert_eq!(numbers.size(&types).unwrap(), 16);
    let code = types.find_type("VehicleCode").unwrap();
    assert_eq!(code.size(&types).unwrap(), 6);
}

#[test]
fn character_literal_gives_the_length_of_a_constant() {
    let types = car().types;
    let fuel = constant("fuel", NativeType::Char, "Petrol");
    // A constant takes no bytes; its literal has a size of its own.
    assert_eq!(Type::EncodedData(fuel.clone()).size(&types).unwrap(), 0);
    assert_eq!(fuel.size(&types).unwrap(), 0);
    assert_eq!(fuel.literal_size(&types).unwrap(), 6);
    let empty = constant("none", NativeType::Char, "");
    assert_eq!(empty.size(&types).unwrap(), 0);
    assert_eq!(empty.literal_size(&types).unwrap(), 1);
    let number = constant("maxRpm", NativeType::UInt16, "9000");
    assert_eq!(number.size(&types).unwrap(), 0);
    assert_eq!(number.literal_size(&types).unwrap(), 2);
    // The presence overrides a declared length too.
    let numbers = EncodedDataType {
        length: Some(3),
        ..constant("limits", NativeType::UInt16, "1")
    };
    assert_eq!(numbers.size(&types).unwrap(), 0);
    assert_eq!(numbers.literal_size(&types).unwrap(), 6);
    let present = EncodedDataType {
        length: Some(3),
        ..encoded("limits", NativeType::UInt16)
    };
    assert_eq!(present.size(&types).unwrap(), 6);
}

#[test]
fn constant_literal_does_not_change_a_composite_size() {
    let types = car().types;
    let with = |literal: &str| {
        composite(
            "c",
            vec![
                Type::EncodedData(encoded("a", NativeType::UInt32)),
                Type::EncodedData(constant("k", NativeType::Char, literal)),
                Type::EncodedData(encoded("b", NativeType::UInt16)),
            ],
        )
    };
    assert_eq!(with("x").size(&types).unwrap(), 6);
    assert_eq!(with("a much longer literal").size(&types).unwrap(), 6);
}

#[test]
fn reference_has_the_size_of_its_target() {
    let types = car().types;
    assert_eq!(reference("b", "Booster").size(&types).unwrap(), 2);
    assert_eq!(NativeType::Reference(text("Engine")).size(&types).unwrap(), 10);
}

#[test]
fn unknown_type_has_no_size() {
    let types = car().types;
    assert_eq!(
        reference("x", "Missing").size(&types),
        Err(SchemaError::UnknownType(text("Missing")))
    );
}

#[test]
fn circular_reference_is_rejected() {
    let mut declared: Table<Type> = Table::new();
    declared.insert(
        text("A"),
        Type::Composite(composite("A", vec![reference("inner", "A")])),
    );
    let types = TypeMap::new(declared, composite("messageHeader", vec![]));
    assert_eq!(
        types.find_type("A").unwrap().size(&types),
        Err(SchemaError::ReferenceCycle(text("A")))
    );
}

#[test]
fn oversized_type_is_rejected() {
    let types = car().types;
    let huge = EncodedDataType {
        length: Some(usize::MAX),
        ..encoded("huge", NativeType::UInt64)
    };
    assert_eq!(huge.size(&types), Err(SchemaError::SizeOverflow));
}

#[test]
fn find_type_asks_the_encoded_types_first() {
    let mut declared: Table<Type> = Table::new();
    declared.insert(text("c"), Type::Composite(composite("x", vec![])));
    declared.insert(text("e"), Type::Enum(enumeration("x", NativeType::UInt8, &[])));
    declared.insert(text("s"), Type::BitSet(bit_set("x", NativeType::UInt8, &[])));
    declared.insert(text("t"), Type::EncodedData(encoded("x", NativeType::UInt8)));
    declared.insert(text("r"), reference("r", "t"));
    let mut types = TypeMap::new(declared, composite("messageHeader", vec![]));
    assert!(matches!(types.find_type("t"), Some(Type::EncodedData(_))));
    assert!(matches!(types.find_type("s"), Some(Type::BitSet(_))));
    assert!(matches!(types.find_type("e"), Some(Type::Enum(_))));
    assert!(matches!(types.find_type("c"), Some(Type::Composite(_))));
    assert!(types.find_type("r").is_none());
    assert!(types.find_type("missing").is_none());
    // The same name in two tables: the encoded type answers.
    types
        .composite_types
        .insert(text("t"), composite("shadowed", vec![]));
    assert!(matches!(types.find_type("t"), Some(Type::EncodedData(_))));
}

#[test]
fn iter_values_walks_the_tables_in_order() {
    let types = car().types;
    let values = types.iter_values();
    let encoded_count = types.encoded_types.len();
    let set_count = types.set_types.len();
    let enum_count = types.enum_types.len();
    let composite_count = types.composite_types.len();
    assert_eq!(set_count, 1);
    assert_eq!(enum_count, 3);
    assert_eq!(composite_count, 7);
    assert_eq!(
        values.len(),
        encoded_count + set_count + enum_count + composite_count
    );
    for (i, value) in values.iter().enumerate() {
        if i < encoded_count {
            assert_eq!(value.name(), types.encoded_types.value_at(i).name);
            assert!(matches!(value, Type::EncodedData(_)));
        } else if i < encoded_count + set_count {
            assert!(matches!(value, Type::BitSet(_)));
        } else if i < encoded_count + set_count + enum_count {
            assert!(matches!(value, Type::Enum(_)));
        } else {
            assert!(matches!(value, Type::Composite(_)));
        }
    }
    assert_eq!(values[encoded_count].name(), "OptionalExtras");
    assert_eq!(values[encoded_count + set_count].name(), "BoostType");
    assert_eq!(values[values.len() - 1].name(), "Engine");
}

#[test]
fn nested_types_are_declared_under_their_names() {
    let types = car().types;
    // BoostType is declared inside Booster only.
    assert!(matches!(types.find_type("BoostType"), Some(Type::Enum(_))));
    // Sub-fields of a composite are declared too.
    assert!(matches!(
        types.find_type("horsePower"),
        Some(Type::EncodedData(_))
    ));
}

#[test]
fn table_insert_replaces_in_place() {
    let mut table: Table<EncodedDataType> = Table::new();
    table.insert(text("a"), encoded("first", NativeType::UInt8));
    table.insert(text("b"), encoded("second", NativeType::UInt8));
    table.insert(text("a"), encoded("third", NativeType::UInt8));
    assert_eq!(table.len(), 2);
    assert_eq!(table.name_at(0), "a");
    assert_eq!(table.value_at(0).name, "third");
    assert_eq!(table.get("b").unwrap().name, "second");
    assert!(table.get("c").is_none());
    assert!(table.contains_key("a"));
    assert_eq!(table.find_index("b"), 1);
    assert_eq!(table.find_index("zz"), 2);
}

#[test]
fn presence_follows_one_reference() {
    let types = car().types;
    assert_eq!(
        types.find_type("Percentage").unwrap().presence(&types),
        Ok(Presence::Optional)
    );
    assert_eq!(
        reference("p", "Percentage").presence(&types),
        Ok(Presence::Optional)
    );
    assert_eq!(
        reference("b", "Booster").presence(&types),
        Ok(Presence::Required)
    );
    assert_eq!(
        types.find_type("Model").unwrap().presence(&types),
        Ok(Presence::Required)
    );
    assert_eq!(
        reference("m", "Missing").presence(&types),
        Err(SchemaError::UnknownType(text("Missing")))
    );
}

#[test]
fn resolved_follows_the_encoded_types() {
    let types = car().types;
    assert_eq!(
        NativeType::Reference(text("ModelYear")).resolved(&types.encoded_types),
        Ok(NativeType::UInt16)
    );
    assert_eq!(
        NativeType::Int32.resolved(&types.encoded_types),
        Ok(NativeType::Int32)
    );
    assert_eq!(
        NativeType::Reference(text("Booster")).resolved(&types.encoded_types),
        Err(SchemaError::UnknownEncodedType(text("Booster")))
    );
    let mut circle: Table<EncodedDataType> = Table::new();
    circle.insert(text("a"), encoded("a", NativeType::Reference(text("b"))));
    circle.insert(text("b"), encoded("b", NativeType::Reference(text("a"))));
    assert!(matches!(
        NativeType::Reference(text("a")).resolved(&circle),
        Err(SchemaError::ReferenceCycle(_))
    ));
}

#[test]
fn null_literals_of_the_primitives() {
    assert_eq!(NativeType::Char.null().unwrap(), "u8::MIN");
    assert_eq!(NativeType::UInt8.null().unwrap(), "u8::MAX");
    assert_eq!(NativeType::UInt16.null().unwrap(), "u16::MAX");
    assert_eq!(NativeType::UInt32.null().unwrap(), "u32::MAX");
    assert_eq!(NativeType::UInt64.null().unwrap(), "u64::MAX");
    assert_eq!(NativeType::Int8.null().unwrap(), "i8::MIN");
    assert_eq!(NativeType::Int16.null().unwrap(), "i16::MIN");
    assert_eq!(NativeType::Int32.null().unwrap(), "i32::MIN");
    assert_eq!(NativeType::Int64.null().unwrap(), "i64::MIN");
    assert_eq!(NativeType::Float.null().unwrap(), "f32::NAN");
    assert_eq!(NativeType::Double.null().unwrap(), "f64::NAN");
    assert_eq!(
        NativeType::Reference(text("x")).null(),
        Err(SchemaError::NullOfReference(text("x")))
    );
}

#[test]
fn hashable_kinds() {
    assert!(NativeType::Char.is_hashable());
    assert!(NativeType::Int64.is_hashable());
    assert!(!NativeType::Float.is_hashable());
    assert!(!NativeType::Double.is_hashable());
    assert!(!NativeType::Reference(text("x")).is_hashable());
    let types = car().types;
    assert_eq!(
        encoded("y", NativeType::Reference(text("ModelYear"))).is_hashable(&types.encoded_types),
        Ok(true)
    );
    assert_eq!(
        encoded("r", NativeType::Reference(text("Ratio"))).is_hashable(&types.encoded_types),
        Ok(false)
    );
}

#[test]
fn names_of_primitives_are_read() {
    assert_eq!(NativeType::from_name("char"), NativeType::Char);
    assert_eq!(NativeType::from_name("uint8"), NativeType::UInt8);
    assert_eq!(NativeType::from_name("uint16"), NativeType::UInt16);
    assert_eq!(NativeType::from_name("uint32"), NativeType::UInt32);
    assert_eq!(NativeType::from_name("uint64"), NativeType::UInt64);
    assert_eq!(NativeType::from_name("int8"), NativeType::Int8);
    assert_eq!(NativeType::from_name("int16"), NativeType::Int16);
    assert_eq!(NativeType::from_name("int32"), NativeType::Int32);
    assert_eq!(NativeType::from_name("int64"), NativeType::Int64);
    assert_eq!(NativeType::from_name("float"), NativeType::Float);
    assert_eq!(NativeType::from_name("double"), NativeType::Double);
    assert_eq!(
        NativeType::from_name("Engine"),
        NativeType::Reference(text("Engine"))
    );
    assert_eq!("uint8".parse::<NativeType>(), Ok(NativeType::UInt8));
}

#[test]
fn attributes_are_read() {
    assert_eq!(ByteOrder::from_name("littleEndian"), Ok(ByteOrder::LittleEndian));
    assert_eq!("bigEndian".parse::<ByteOrder>(), Ok(ByteOrder::BigEndian));
    assert_eq!(
        ByteOrder::from_name("middle"),
        Err(SchemaError::InvalidByteOrder(text("middle")))
    );
    assert_eq!(Presence::from_name("constant"), Ok(Presence::Constant));
    assert_eq!(Presence::from_name("required"), Ok(Presence::Required));
    assert_eq!("optional".parse::<Presence>(), Ok(Presence::Optional));
    assert_eq!(
        Presence::from_name("maybe"),
        Err(SchemaError::InvalidPresence(text("maybe")))
    );
    assert_eq!(Presence::default(), Presence::Required);
    assert_eq!(CharacterEncoding::from_name("ASCII"), Ok(CharacterEncoding::Ascii));
    assert_eq!("UTF-8".parse::<CharacterEncoding>(), Ok(CharacterEncoding::Utf8));
    assert_eq!(
        CharacterEncoding::from_name("latin1"),
        Err(SchemaError::InvalidCharacterEncoding(text("latin1")))
    );
}

#[test]
fn enum_values_are_numbers_or_characters() {
    assert_eq!(valid_value("T", "T").encoded_value(true), Ok(84));
    assert_eq!(valid_value("one", "1").encoded_value(false), Ok(1));
    assert_eq!(valid_value("plus", "+17").encoded_value(false), Ok(17));
    assert_eq!(
        valid_value("max", "18446744073709551615").encoded_value(false),
        Ok(u64::MAX)
    );
    assert_eq!(
        valid_value("over", "18446744073709551616").encoded_value(false),
        Err(SchemaError::InvalidEnumValue(text("18446744073709551616")))
    );
    assert_eq!(
        valid_value("bad", "1x").encoded_value(false),
        Err(SchemaError::InvalidEnumValue(text("1x")))
    );
    assert_eq!(
        valid_value("neg", "-1").encoded_value(false),
        Err(SchemaError::InvalidEnumValue(text("-1")))
    );
    assert_eq!(
        valid_value("none", "").encoded_value(false),
        Err(SchemaError::InvalidEnumValue(text("")))
    );
    assert_eq!(
        valid_value("none", "").encoded_value(true),
        Err(SchemaError::EmptyEnumValue(text("none")))
    );
}

#[test]
fn field_type_is_declared_or_made_from_the_field() {
    let types = car().types;
    let declared = field("engine", 9, "Engine").to_type(&types).unwrap();
    assert!(matches!(declared, Type::Composite(ref c) if c.name == "Engine"));
    let made = field("serialNumber", 1, "uint64").to_type(&types).unwrap();
    match made {
        Type::EncodedData(e) => {
            assert_eq!(e.name, "serialNumber");
            assert_eq!(e.primitive_type, NativeType::UInt64);
            assert_eq!(e.presence, Presence::Required);
            assert_eq!(e.length, None);
        }
        other => panic!("an encoded type was expected, not {:?}", other),
    }
    let unknown = field("x", 1, "Nowhere").to_type(&types).unwrap();
    assert!(matches!(
        unknown,
        Type::EncodedData(ref e) if e.primitive_type == NativeType::Reference(text("Nowhere"))
    ));
    assert_eq!(
        unknown.size(&types),
        Err(SchemaError::UnknownType(text("Nowhere")))
    );
}

#[test]
fn variable_data_is_text_bytes_or_list() {
    let mut types = car().types;
    types.composite_types.insert(
        text("varChars"),
        composite(
            "varChars",
            vec![
                Type::EncodedData(encoded("length", NativeType::UInt16)),
                Type::EncodedData(encoded("varData", NativeType::Char)),
            ],
        ),
    );
    // Characters are text, with or without a declared encoding.
    let name = var_data("name", 30, "varChars");
    assert_eq!(name.is_string(&types), Ok(true));
    assert_eq!(name.is_bytes(&types), Ok(true));
    assert_eq!(name.element_kind(&types), Ok(NativeType::Char));
    // Unsigned 8-bit numbers are bytes, whatever encoding is declared for them.
    let manufacturer = var_data("manufacturer", 18, "varStringEncoding");
    assert_eq!(manufacturer.is_string(&types), Ok(false));
    assert_eq!(manufacturer.is_bytes(&types), Ok(true));
    assert_eq!(
        manufacturer.repr_type(&types.composite_types).unwrap().name,
        "varStringEncoding"
    );
    let samples = var_data("samples", 21, "varNumbers");
    assert_eq!(samples.is_string(&types), Ok(false));
    assert_eq!(samples.is_bytes(&types), Ok(false));
    let missing = var_data("m", 1, "nowhere");
    assert_eq!(
        missing.is_string(&types),
        Err(SchemaError::MissingVarDataType {
            type_ref: text("nowhere"),
            name: text("m")
        })
    );
    let short = var_data("s", 1, "groupSizeEncoding");
    assert_eq!(short.is_bytes(&types), Ok(false));
    let too_short = var_data("h", 1, "one");
    let mut with_one = types.clone();
    with_one.composite_types.insert(
        text("one"),
        composite("one", vec![Type::EncodedData(encoded("length", NativeType::UInt8))]),
    );
    assert_eq!(
        too_short.is_string(&with_one),
        Err(SchemaError::VarDataShape(text("h")))
    );
    with_one.composite_types.insert(
        text("odd"),
        composite(
            "odd",
            vec![
                Type::EncodedData(encoded("length", NativeType::UInt8)),
                reference("varData", "ModelYear"),
            ],
        ),
    );
    assert_eq!(
        var_data("o", 1, "odd").is_string(&with_one),
        Err(SchemaError::VarDataValueNotEncoded(text("o")))
    );
    // The element primitive is resolved through the table.
    with_one.encoded_types.insert(
        text("Letter"),
        encoded("Letter", NativeType::Char),
    );
    with_one.composite_types.insert(
        text("letters"),
        composite(
            "letters",
            vec![
                Type::EncodedData(encoded("length", NativeType::UInt8)),
                Type::EncodedData(encoded("varData", NativeType::Reference(text("Letter")))),
            ],
        ),
    );
    assert_eq!(var_data("l", 1, "letters").is_string(&with_one), Ok(true));
    with_one.composite_types.insert(
        text("lost"),
        composite(
            "lost",
            vec![
                Type::EncodedData(encoded("length", NativeType::UInt8)),
                Type::EncodedData(encoded("varData", NativeType::Reference(text("Nowhere")))),
            ],
        ),
    );
    assert!(var_data("l", 1, "lost").is_string(&with_one).is_err());
}

#[test]
fn project_version_has_three_parts() {
    let with = |semantic: Option<&str>, version: usize| MessageSchema {
        semantic_version: semantic.map(text),
        version,
        ..car_schema()
    };
    assert_eq!(with(Some("5.2"), 0).project_version(), "5.2.0");
    assert_eq!(with(Some("5"), 0).project_version(), "5.0.0");
    assert_eq!(with(Some("5.2.1"), 0).project_version(), "5.2.1");
    assert_eq!(with(Some("1.2.3.4"), 0).project_version(), "1.2.3.4");
    assert_eq!(with(None, 7).project_version(), "7.0.0");
    assert_eq!(with(None, 120).project_version(), "120.0.0");
}

#[test]
fn validation_resolves_defaults() {
    let schema = MessageSchema {
        package: text("uk.co.real_logic.baseline"),
        byte_order: None,
        ..car_schema()
    };
    let validated = schema.validate().unwrap();
    assert_eq!(validated.package, "baseline");
    assert_eq!(validated.byte_order, ByteOrder::LittleEndian);
    assert_eq!(validated.semantic_version, "5.2.0");
    assert_eq!(validated.id, 1);
    assert_eq!(validated.message_types.message_types.len(), 1);
    assert_eq!(validated.message_types.group_types.len(), 3);
    assert!(validated.message_types.group_types.contains_key("acceleration"));
    assert_eq!(validated.message_types.variable_data_types.len(), 5);
    assert_eq!(validated.message_types.iter_values().len(), 8);
}

#[test]
fn validation_rejects_a_missing_header() {
    let schema = MessageSchema {
        header_type: Some(text("otherHeader")),
        ..car_schema()
    };
    assert_eq!(
        schema.validate(),
        Err(SchemaError::HeaderNotFound(text("otherHeader")))
    );
}

#[test]
fn validation_rejects_a_header_that_is_no_composite() {
    let schema = MessageSchema {
        header_type: Some(text("Model")),
        ..car_schema()
    };
    assert_eq!(
        schema.validate(),
        Err(SchemaError::HeaderNotComposite(text("Model")))
    );
}

#[test]
fn validation_rejects_an_empty_package() {
    let empty = MessageSchema {
        package: text(""),
        ..car_schema()
    };
    assert_eq!(empty.validate(), Err(SchemaError::EmptyPackage));
    let trailing = MessageSchema {
        package: text("a.b."),
        ..car_schema()
    };
    assert_eq!(trailing.validate(), Err(SchemaError::EmptyPackage));
}

#[test]
fn later_declaration_of_a_name_stands() {
    let schema = MessageSchema {
        types_section: vec![
            TypesSection {
                types: vec![
                    Type::Composite(composite("messageHeader", vec![])),
                    Type::EncodedData(encoded("T", NativeType::UInt8)),
                ],
            },
            TypesSection {
                types: vec![Type::EncodedData(encoded("T", NativeType::UInt64))],
            },
        ],
        message_types: vec![],
        ..car_schema()
    };
    let declared = schema.types();
    assert_eq!(declared.len(), 2);
    assert_eq!(declared.name_at(1), "T");
    let types = schema.validate().unwrap().types;
    assert_eq!(types.find_type("T").unwrap().size(&types), Ok(8));
}

#[test]
fn nested_fields_of_groups_are_collected() {
    let schema = car_schema();
    let fields = schema.message_field_types();
    assert!(fields.contains_key("serialNumber"));
    assert!(fields.contains_key("fuelFigures"));
    assert!(fields.contains_key("usageDescription"));
    assert!(fields.contains_key("mph"));
    let nested = MessageSchema::find_nested_message_types(&schema.message_types[0].fields[11]);
    assert_eq!(nested.len(), 5);
    assert_eq!(nested.name_at(0), "performanceFigures");
    let types = MessageSchema::find_nested_types(&reference("r", "x"));
    assert_eq!(types.len(), 0);
    assert_eq!(schema.message_types().len(), 1);
}

#[test]
fn schema_failures_say_what_went_wrong() {
    assert_eq!(
        SchemaError::UnknownType(text("Missing")).message(),
        "Unknown type Missing"
    );
    assert_eq!(
        SchemaError::UnknownEncodedType(text("Booster")).message(),
        "Could not find encoded data type 'Booster'"
    );
    assert_eq!(
        SchemaError::HeaderNotFound(text("messageHeader")).message(),
        "Header type 'messageHeader' not found"
    );
    assert_eq!(
        SchemaError::HeaderNotComposite(text("Model")).message(),
        "Header type 'Model' is not a composite type"
    );
    assert_eq!(
        SchemaError::InvalidByteOrder(text("middle")).message(),
        "Invalid byte order: middle"
    );
    assert_eq!(
        SchemaError::InvalidPresence(text("maybe")).message(),
        "Invalid presence: maybe"
    );
    assert_eq!(
        SchemaError::InvalidCharacterEncoding(text("latin1")).message(),
        "Invalid character encoding: latin1"
    );
    assert_eq!(
        SchemaError::MissingVarDataType {
            type_ref: text("nowhere"),
            name: text("m")
        }
        .message(),
        "Missing type 'nowhere' for variable data 'm'"
    );
    assert_eq!(
        SchemaError::MissingDimensionType {
            type_ref: text("nowhere"),
            group: text("g")
        }
        .message(),
        "Missing dimension type 'nowhere' for group 'g'"
    );
    assert_eq!(
        SchemaError::ConstantUnknownValue {
            field: text("fixed"),
            value: text("Z")
        }
        .message(),
        "Constant field fixed has no value Z"
    );
    assert_eq!(
        SchemaError::ConstantNotEnum(text("fixed")).message(),
        "Constant field fixed is not an enum"
    );
    assert_eq!(
        SchemaError::InvalidEnumValue(text("x")).message(),
        "Failed to parse enum value: x"
    );
    assert_eq!(SchemaError::EmptyPackage.message(), "Package name was missing.");
    for fault in [
        SchemaError::ReferenceCycle(text("A")),
        SchemaError::SizeOverflow,
        SchemaError::NullOfReference(text("x")),
        SchemaError::EmptyEnumValue(text("x")),
        SchemaError::VarDataShape(text("x")),
        SchemaError::VarDataLengthNotEncoded(text("x")),
        SchemaError::VarDataValueNotEncoded(text("x")),
        SchemaError::BlockLengthNotEncoded(text("x")),
        SchemaError::NumInGroupNotEncoded(text("x")),
        SchemaError::ConstantWithoutValue(text("x")),
        SchemaError::ConstantNotEncoded(text("x")),
        SchemaError::ConstantWithoutRef(text("x")),
        SchemaError::ZeroSizedElement(text("x")),
    ] {
        assert!(!fault.message().is_empty());
    }
}

#[test]
fn element_without_size_is_rejected() {
    let mut declared: Table<Type> = Table::new();
    declared.insert(text("empty"), Type::Composite(composite("empty", vec![])));
    declared.insert(
        text("plain"),
        Type::EncodedData(encoded("plain", NativeType::UInt8)),
    );
    let types = TypeMap::new(declared, composite("messageHeader", vec![]));
    // A reference among the encoded types resolves, but the size goes by the whole
    // type table, where the name may stand for a type without bytes.
    let mut shadowed = types.clone();
    shadowed
        .encoded_types
        .insert(text("k"), constant("k", NativeType::UInt8, "1"));
    let field = encoded("f", NativeType::Reference(text("k")));
    assert_eq!(
        FieldMetadata::from("f", &field, &shadowed).unwrap_err(),
        SchemaError::ZeroSizedElement(text("f"))
    );
}
