#![allow(dead_code, unused_imports)]

use sbe_codegen::error::SchemaError;
use sbe_codegen::models::message::MessageType;
use sbe_codegen::models::schema::{MessageSchema, TypesSection, ValidatedMessageSchema};
use sbe_codegen::models::table::Table;
use sbe_codegen::models::types::composite_type::CompositeType;
use sbe_codegen::models::types::encoded_data_type::EncodedDataType;
use sbe_codegen::models::types::enum_type::{EnumType, ValidValue};
use sbe_codegen::models::types::field_type::FieldType;
use sbe_codegen::models::types::group_type::GroupType;
use sbe_codegen::models::types::primitive_type::{
    NativeType, PrimitiveConvertible, ResolvableType,
};
use sbe_codegen::models::types::reference_type::ReferenceType;
use sbe_codegen::models::types::set_type::{Choice, SetType};
use sbe_codegen::models::types::variable_data_type::VariableDataType;
use sbe_codegen::models::types::{CharacterEncoding, MessageField, Presence, SizedEncoded, Type};
use sbe_codegen::models::{ByteOrder, MessageTypeMap, TypeMap};
use sbe_codegen::generator::python::codecs::{
    composite_data_class, field_constant_enum, field_struct, generate_composite_field,
    generate_constant_field, get_type_name, group_data_class, group_struct, message_data_class,
    var_data_field_struct, ConstantGetter, FieldAccess, VarDataRepr,
};
use sbe_codegen::generator::python::typing::{
    ordered_children, resolved_field_type_name, resolved_type_name, typing_class, write_fields,
    ClassKind, ExportedClass,
};
use sbe_codegen::generator::python::PythonGenerator;
use sbe_codegen::generator::rust::codecs::composite_type::{
    field_accessor, CodecSide, FieldAccessor,
};
use sbe_codegen::generator::rust::codecs::message_type::message_codec;
use sbe_codegen::wire::block::{decode_block, encode_block};
use sbe_codegen::wire::layout::scalar_field;
use sbe_codegen::wire::message::HeaderLayout;
use sbe_codegen::wire::scalar::{Primitive, ScalarField};

fn text(s: &str) -> String {
    s.to_string()
}

fn encoded(name: &str, primitive: NativeType) -> EncodedDataType {
    EncodedDataType {
        name: text(name),
        since_version: None,
        deprecated: None,
        semantic_type: None,
        description: None,
        offset: None,
        presence: Presence::Required,
        null_value: None,
        min_value: None,
        max_value: None,
        length: None,
        primitive_type: primitive,
        character_encoding: None,
        default_value: None,
    }
}

fn constant(name: &str, primitive: NativeType, literal: &str) -> EncodedDataType {
    EncodedDataType {
        presence: Presence::Constant,
        default_value: Some(text(literal)),
        ..encoded(name, primitive)
    }
}

fn reference(name: &str, target: &str) -> Type {
    Type::Reference(ReferenceType {
        name: text(name),
        since_version: None,
        deprecated: None,
        offset: None,
        type_ref: text(target),
    })
}

fn valid_value(name: &str, value: &str) -> ValidValue {
    ValidValue {
        name: text(name),
        since_version: None,
        deprecated: None,
        description: None,
        value: text(value),
    }
}

fn enumeration(name: &str, encoding: NativeType, values: &[(&str, &str)]) -> EnumType {
    EnumType {
        name: text(name),
        since_version: None,
        deprecated: None,
        semantic_type: None,
        description: None,
        offset: None,
        encoding_type: encoding,
        values: values.iter().map(|(n, v)| valid_value(n, v)).collect(),
    }
}

fn bit_set(name: &str, encoding: NativeType, choices: &[(&str, u64)]) -> SetType {
    SetType {
        name: text(name),
        since_version: None,
        deprecated: None,
        semantic_type: None,
        description: None,
        offset: None,
        encoding_type: encoding,
        choices: choices
            .iter()
            .map(|(n, v)| Choice {
                name: text(n),
                since_version: None,
                deprecated: None,
                description: None,
                value: *v,
            })
            .collect(),
    }
}

fn composite(name: &str, fields: Vec<Type>) -> CompositeType {
    CompositeType {
        name: text(name),
        since_version: None,
        deprecated: None,
        semantic_type: None,
        description: None,
        offset: None,
        fields,
    }
}

fn field(name: &str, id: u16, type_ref: &str) -> FieldType {
    FieldType {
        name: text(name),
        id,
        since_version: None,
        deprecated: None,
        semantic_type: None,
        description: None,
        offset: None,
        presence: Presence::Required,
        type_ref: text(type_ref),
        epoch: None,
        value_ref: None,
    }
}

fn group(name: &str, id: u16, fields: Vec<MessageField>) -> GroupType {
    GroupType {
        name: text(name),
        id,
        block_length: None,
        dimension_type: None,
        semantic_type: None,
        description: None,
        since_version: None,
        deprecated: None,
        fields,
    }
}

fn var_data(name: &str, id: u16, type_ref: &str) -> VariableDataType {
    VariableDataType {
        name: text(name),
        id,
        type_ref: text(type_ref),
        semantic_type: None,
        description: None,
        since_version: None,
        deprecated: None,
    }
}

/// The car schema of the SBE examples, as far as the tests need it.
fn car_schema() -> MessageSchema {
    let header = composite(
        "messageHeader",
        vec![
            Type::EncodedData(encoded("blockLength", NativeType::UInt16)),
            Type::EncodedData(encoded("templateId", NativeType::UInt16)),
            Type::EncodedData(encoded("schemaId", NativeType::UInt16)),
            Type::EncodedData(encoded("version", NativeType::UInt16)),
        ],
    );
    let group_size = composite(
        "groupSizeEncoding",
        vec![
            Type::EncodedData(encoded("blockLength", NativeType::UInt16)),
            Type::EncodedData(encoded("numInGroup", NativeType::UInt16)),
        ],
    );
    let var_string = composite(
        "varStringEncoding",
        vec![
            Type::EncodedData(EncodedDataType {
                max_value: Some(text("1073741824")),
                ..encoded("length", NativeType::UInt32)
            }),
            Type::EncodedData(EncodedDataType {
                length: Some(0),
                character_encoding: Some(CharacterEncoding::Utf8),
                ..encoded("varData", NativeType::UInt8)
            }),
        ],
    );
    let var_ascii = composite(
        "varAsciiEncoding",
        vec![
            Type::EncodedData(encoded("length", NativeType::UInt32)),
            Type::EncodedData(EncodedDataType {
                length: Some(0),
                character_encoding: Some(CharacterEncoding::Ascii),
                ..encoded("varData", NativeType::UInt8)
            }),
        ],
    );
    let var_numbers = composite(
        "varNumbers",
        vec![
            Type::EncodedData(encoded("length", NativeType::UInt16)),
            Type::EncodedData(encoded("varData", NativeType::UInt32)),
        ],
    );
    let booster = composite(
        "Booster",
        vec![
            Type::Enum(enumeration(
                "BoostType",
                NativeType::Char,
                &[("TURBO", "T"), ("SUPERCHARGER", "S"), ("NITROUS", "N"), ("KERS", "K")],
            )),
            Type::EncodedData(encoded("horsePower", NativeType::UInt8)),
        ],
    );
    let engine = composite(
        "Engine",
        vec![
            Type::EncodedData(encoded("capacity", NativeType::UInt16)),
            Type::EncodedData(encoded("numCylinders", NativeType::UInt8)),
            Type::EncodedData(constant("maxRpm", NativeType::UInt16, "9000")),
            Type::EncodedData(EncodedDataType {
                length: Some(3),
                ..encoded("manufacturerCode", NativeType::Char)
            }),
            Type::EncodedData(constant("fuel", NativeType::Char, "Petrol")),
            Type::EncodedData(EncodedDataType {
                min_value: Some(text("0")),
                max_value: Some(text("100")),
                ..encoded("efficiency", NativeType::Int8)
            }),
            reference("boosterEnabled", "BooleanType"),
            reference("booster", "Booster"),
        ],
    );
    let types = vec![
        Type::Composite(header),
        Type::Composite(group_size),
        Type::Composite(var_string),
        Type::Composite(var_ascii),
        Type::Composite(var_numbers),
        Type::EncodedData(encoded("ModelYear", NativeType::UInt16)),
        Type::EncodedData(EncodedDataType {
            length: Some(6),
            character_encoding: Some(CharacterEncoding::Ascii),
            ..encoded("VehicleCode", NativeType::Char)
        }),
        Type::EncodedData(EncodedDataType {
            length: Some(4),
            ..encoded("someNumbers", NativeType::UInt32)
        }),
        Type::EncodedData(EncodedDataType {
            presence: Presence::Optional,
            ..encoded("Percentage", NativeType::Int8)
        }),
        Type::EncodedData(EncodedDataType {
            presence: Presence::Optional,
            ..encoded("Ratio", NativeType::Float)
        }),
        Type::Composite(booster),
        Type::Composite(engine),
        Type::Enum(enumeration("BooleanType", NativeType::UInt8, &[("F", "0"), ("T", "1")])),
        Type::Enum(enumeration("Model", NativeType::Char, &[("A", "A"), ("B", "B"), ("C", "C")])),
        Type::BitSet(bit_set(
            "OptionalExtras",
            NativeType::UInt8,
            &[("sunRoof", 0), ("sportsPack", 1), ("cruiseControl", 2)],
        )),
    ];
    let acceleration = group(
        "acceleration",
        15,
        vec![
            MessageField::Field(field("mph", 16, "uint16")),
            MessageField::Field(field("seconds", 17, "float")),
        ],
    );
    let car = MessageType {
        name: text("Car"),
        id: 1,
        block_length: None,
        semantic_type: None,
        description: Some(text("Description of a basic Car")),
        since_version: None,
        deprecated: None,
        fields: vec![
            MessageField::Field(field("serialNumber", 1, "uint64")),
            MessageField::Field(field("modelYear", 2, "ModelYear")),
            MessageField::Field(field("available", 3, "BooleanType")),
            MessageField::Field(field("code", 4, "Model")),
            MessageField::Field(field("someNumbers", 5, "someNumbers")),
            MessageField::Field(field("vehicleCode", 6, "VehicleCode")),
            MessageField::Field(field("extras", 7, "OptionalExtras")),
            MessageField::Field(FieldType {
                presence: Presence::Constant,
                value_ref: Some(text("Model.C")),
                ..field("discountedModel", 8, "Model")
            }),
            MessageField::Field(field("engine", 9, "Engine")),
            MessageField::Field(FieldType {
                presence: Presence::Optional,
                ..field("discount", 10, "Percentage")
            }),
            MessageField::Group(group(
                "fuelFigures",
                11,
                vec![
                    MessageField::Field(field("speed", 12, "uint16")),
                    MessageField::Field(field("mpg", 13, "float")),
                    MessageField::VariableData(var_data("usageDescription", 200, "varStringEncoding")),
                ],
            )),
            MessageField::Group(group(
                "performanceFigures",
                14,
                vec![
                    MessageField::Field(field("octaneRating", 15, "uint8")),
                    MessageField::Group(acceleration),
                ],
            )),
            MessageField::VariableData(var_data("manufacturer", 18, "varStringEncoding")),
            MessageField::VariableData(var_data("model", 19, "varStringEncoding")),
            MessageField::VariableData(var_data("activationCode", 20, "varAsciiEncoding")),
            MessageField::VariableData(var_data("samples", 21, "varNumbers")),
        ],
    };
    MessageSchema {
        package: text("baseline"),
        id: 1,
        version: 0,
        semantic_version: Some(text("5.2")),
        description: Some(text("Example base schema")),
        byte_order: Some(ByteOrder::LittleEndian),
        header_type: None,
        types_section: vec![TypesSection { types }],
        message_types: vec![car],
    }
}

fn car() -> ValidatedMessageSchema {
    car_schema().validate().unwrap()
}

#[test]
fn attribute_types_of_the_data_classes() {
    let types = car().types;
    let of = |name: &str| get_type_name(&types.find_type(name).unwrap(), &types).unwrap();
    assert_eq!(of("ModelYear"), "u16");
    assert_eq!(of("VehicleCode"), "String");
    assert_eq!(of("someNumbers"), "[u32; 4]");
    assert_eq!(of("Percentage"), "Option<i8>");
    assert_eq!(of("Ratio"), "Option<f32>");
    assert_eq!(of("OptionalExtras"), "OptionalExtras");
    assert_eq!(of("BooleanType"), "BooleanType");
    assert_eq!(of("Engine"), "Engine");
    assert_eq!(get_type_name(&reference("b", "Booster"), &types).unwrap(), "Booster");
    assert_eq!(
        get_type_name(&reference("b", "Nowhere"), &types),
        Err(SchemaError::UnknownType(text("Nowhere")))
    );
}

#[test]
fn engine_becomes_a_data_class() {
    let types = car().types;
    let engine = types.composite_types.get("Engine").unwrap();
    let class = composite_data_class(engine, &types).unwrap();
    assert_eq!(class.name, "Engine");
    assert_eq!(class.module_name, "engine");
    assert_eq!(class.rust_decoder, "RustEngineDecoder");
    assert_eq!(class.rust_encoder, "RustEngineEncoder");
    assert_eq!(class.id_constant, None);
    assert_eq!(class.fields.len(), 8);
    assert_eq!(class.required, vec![0, 1, 3, 5, 6, 7]);
    assert!(class.optional.is_empty());

    let capacity = &class.fields[0];
    assert_eq!(capacity.name, "capacity");
    assert_eq!(capacity.rust_type.as_deref(), Some("u16"));
    assert_eq!(capacity.access, Some(FieldAccess::Value { by_ref: false }));
    assert!(capacity.hashable);

    let max_rpm = &class.fields[2];
    assert_eq!(max_rpm.presence, Presence::Constant);
    assert_eq!(max_rpm.rust_type, None);
    assert_eq!(max_rpm.access, None);
    match max_rpm.constant.as_ref().unwrap() {
        ConstantGetter::Literal { value_type, value } => {
            assert_eq!(value_type, "u16");
            assert_eq!(value, "9000");
        }
        other => panic!("a literal was expected, not {:?}", other),
    }
    match class.fields[4].constant.as_ref().unwrap() {
        ConstantGetter::Literal { value_type, value } => {
            assert_eq!(value_type, "String");
            assert_eq!(value, "\"Petrol\".to_owned()");
        }
        other => panic!("a literal was expected, not {:?}", other),
    }
    let code = &class.fields[3];
    assert_eq!(code.rust_type.as_deref(), Some("String"));
    assert_eq!(code.access, Some(FieldAccess::Value { by_ref: true }));
    assert_eq!(class.fields[6].access, Some(FieldAccess::Enum));
    assert_eq!(class.fields[6].rust_type.as_deref(), Some("BooleanType"));
    assert_eq!(class.fields[7].access, Some(FieldAccess::Composite));
}

#[test]
fn floats_do_not_take_part_in_the_hash() {
    let types = car().types;
    let ratio = generate_composite_field(&types.find_type("Ratio").unwrap(), &types).unwrap();
    assert!(!ratio.hashable);
    assert_eq!(ratio.presence, Presence::Optional);
    let year = generate_composite_field(&types.find_type("ModelYear").unwrap(), &types).unwrap();
    assert!(year.hashable);
    let seconds = field_struct(&field("seconds", 17, "float"), &types).unwrap();
    assert!(!seconds.hashable);
    assert_eq!(seconds.rust_type.as_deref(), Some("f32"));
}

#[test]
fn car_becomes_a_data_class() {
    let schema = car();
    let car = schema.message_types.message_types.get("Car").unwrap();
    let class = message_data_class(car, &schema.types).unwrap();
    assert_eq!(class.name, "Car");
    assert_eq!(class.id_constant.as_deref(), Some("CAR_ID"));
    assert_eq!(class.fields.len(), 10);
    assert_eq!(class.required, vec![0, 1, 2, 3, 4, 5, 6, 8]);
    assert_eq!(class.optional, vec![9]);
    assert_eq!(class.fields[9].name, "discount");
    assert_eq!(class.fields[9].rust_type.as_deref(), Some("Option<i8>"));
    match class.fields[7].constant.as_ref().unwrap() {
        ConstantGetter::EnumValue { named_type, variant } => {
            assert_eq!(named_type, "Model");
            assert_eq!(variant, "C");
        }
        other => panic!("a value of an enum was expected, not {:?}", other),
    }
    let groups: Vec<(&str, &str)> = class
        .groups
        .iter()
        .map(|g| (g.name.as_str(), g.class_name.as_str()))
        .collect();
    assert_eq!(
        groups,
        vec![
            ("fuel_figures", "FuelFigures"),
            ("performance_figures", "PerformanceFigures")
        ]
    );
    assert_eq!(class.var_data.len(), 4);
    assert_eq!(class.var_data[0].name, "manufacturer");
    // The elements are unsigned 8-bit numbers: bytes, though an encoding is declared.
    assert_eq!(class.var_data[0].repr, VarDataRepr::Bytes);
    assert!(class.var_data[0].bytes_getter);
    assert_eq!(class.var_data[3].repr, VarDataRepr::List);
    assert_eq!(class.var_data[3].element_type, "u32");
}

#[test]
fn group_becomes_a_data_class() {
    let schema = car();
    let fuel = schema.message_types.group_types.get("fuelFigures").unwrap();
    let class = group_data_class(fuel, &schema.types).unwrap();
    assert_eq!(class.name, "FuelFigures");
    assert_eq!(class.module_name, "fuel_figures");
    assert_eq!(class.id_constant, None);
    assert_eq!(class.fields.len(), 2);
    assert_eq!(class.var_data.len(), 1);
    assert_eq!(group_struct(fuel).class_name, "FuelFigures");
}

#[test]
fn bytes_have_their_own_getter() {
    let schema = car();
    let mut types = schema.types.clone();
    types.composite_types.insert(
        text("varBytes"),
        composite(
            "varBytes",
            vec![
                Type::EncodedData(encoded("length", NativeType::UInt16)),
                Type::EncodedData(encoded("varData", NativeType::UInt8)),
            ],
        ),
    );
    let raw = var_data_field_struct(&var_data("raw", 1, "varBytes"), &types).unwrap();
    assert_eq!(raw.repr, VarDataRepr::Bytes);
    assert!(raw.bytes_getter);
    assert_eq!(raw.element_type, "u8");
    // Characters are text and have no getter of bytes.
    types.composite_types.insert(
        text("varChars"),
        composite(
            "varChars",
            vec![
                Type::EncodedData(encoded("length", NativeType::UInt16)),
                Type::EncodedData(encoded("varData", NativeType::Char)),
            ],
        ),
    );
    let words = var_data_field_struct(&var_data("words", 2, "varChars"), &types).unwrap();
    assert_eq!(words.repr, VarDataRepr::Text);
    assert!(!words.bytes_getter);
    assert_eq!(
        resolved_field_type_name(&MessageField::VariableData(var_data("words", 2, "varChars")), &types)
            .unwrap(),
        "str"
    );
    assert_eq!(
        resolved_field_type_name(&MessageField::VariableData(var_data("raw", 1, "varBytes")), &types)
            .unwrap(),
        "bytes"
    );
}

#[test]
fn constants_of_the_scripting_layer() {
    let types = car().types;
    let fuel = Type::EncodedData(constant("fuel", NativeType::Char, "Petrol"));
    assert!(matches!(
        generate_constant_field("fuel", &fuel, &types),
        Ok(ConstantGetter::Literal { .. })
    ));
    assert_eq!(
        generate_constant_field("odd", &reference("odd", "Model"), &types).unwrap_err(),
        SchemaError::ConstantNotEncoded(text("odd"))
    );
    let fixed = FieldType {
        presence: Presence::Constant,
        value_ref: Some(text("some.Model.B")),
        ..field("fixed", 1, "Model")
    };
    // The scripting layer goes by the last segment of the reference.
    match field_constant_enum(&fixed, &types).unwrap() {
        ConstantGetter::EnumValue { variant, .. } => assert_eq!(variant, "B"),
        other => panic!("a value of an enum was expected, not {:?}", other),
    }
    let plain = FieldType {
        value_ref: Some(text("A")),
        ..fixed.clone()
    };
    assert!(field_constant_enum(&plain, &types).is_ok());
    let unknown = FieldType {
        value_ref: Some(text("Model.Z")),
        ..fixed.clone()
    };
    assert_eq!(
        field_constant_enum(&unknown, &types).unwrap_err(),
        SchemaError::ConstantUnknownValue {
            field: text("fixed"),
            value: text("Z")
        }
    );
}

#[test]
fn annotations_of_the_typing_stub() {
    let types = car().types;
    let of = |name: &str| resolved_type_name(&types.find_type(name).unwrap(), &types).unwrap();
    assert_eq!(of("ModelYear"), "int");
    assert_eq!(of("Ratio"), "float");
    assert_eq!(of("VehicleCode"), "str");
    assert_eq!(of("someNumbers"), "list[int]");
    assert_eq!(of("Engine"), "Engine");
    assert_eq!(of("OptionalExtras"), "OptionalExtras");
    let bytes = Type::EncodedData(EncodedDataType {
        length: Some(16),
        ..encoded("digest", NativeType::UInt8)
    });
    assert_eq!(resolved_type_name(&bytes, &types).unwrap(), "bytes");
    let doubles = Type::EncodedData(EncodedDataType {
        length: Some(2),
        ..encoded("pair", NativeType::Double)
    });
    assert_eq!(resolved_type_name(&doubles, &types).unwrap(), "list[float]");
    let schema = car_schema();
    let fields = &schema.message_types[0].fields;
    let of_field = |i: usize| resolved_field_type_name(&fields[i], &types).unwrap();
    assert_eq!(of_field(0), "int");
    assert_eq!(of_field(8), "Engine");
    assert_eq!(of_field(10), "list[FuelFigures]");
    assert_eq!(of_field(12), "bytes");
    assert_eq!(of_field(15), "list[int]");
}

#[test]
fn optional_fields_go_to_the_end_of_the_stub() {
    let fields = vec![
        MessageField::Field(FieldType {
            presence: Presence::Optional,
            ..field("first", 1, "uint8")
        }),
        MessageField::Field(field("second", 2, "uint8")),
        MessageField::Group(group("third", 3, vec![])),
        MessageField::Field(FieldType {
            presence: Presence::Optional,
            ..field("fourth", 4, "uint8")
        }),
        MessageField::Field(FieldType {
            presence: Presence::Constant,
            value_ref: Some(text("Model.A")),
            ..field("fifth", 5, "Model")
        }),
    ];
    let names: Vec<&str> = ordered_children(&fields).iter().map(|f| f.name()).collect();
    assert_eq!(names, vec!["second", "third", "fifth", "first", "fourth"]);
    let types = car().types;
    let lines: Vec<(String, String)> = write_fields(&fields, false, &types)
        .unwrap()
        .into_iter()
        .map(|l| (l.name, l.annotation))
        .collect();
    assert_eq!(
        lines,
        vec![
            (text("second"), text("int")),
            (text("third"), text("list[Third]")),
            (text("fifth"), text("Model")),
            (text("first"), text("int | None")),
            (text("fourth"), text("int | None")),
        ]
    );
    let init: Vec<(String, String)> = write_fields(&fields, true, &types)
        .unwrap()
        .into_iter()
        .map(|l| (l.name, l.annotation))
        .collect();
    assert_eq!(
        init,
        vec![
            (text("second"), text("int,")),
            (text("third"), text("list[Third],")),
            (text("first"), text("int | None = None,")),
            (text("fourth"), text("int | None = None,")),
        ]
    );
    assert!(write_fields(&vec![], false, &types).unwrap().is_empty());
}

#[test]
fn exported_classes_of_a_schema() {
    let schema = car();
    let generator = PythonGenerator::new(&schema);
    let classes = generator.exported_classes();
    let names: Vec<&str> = (0..classes.len()).map(|i| classes.name_at(i)).collect();
    assert_eq!(names.len(), 1 + 3 + 7 + 3 + 1);
    assert_eq!(names[0], "OptionalExtras");
    assert_eq!(names[1], "BoostType");
    assert_eq!(names[names.len() - 1], "Car");
    assert!(names.contains(&"FuelFigures"));
    assert!(names.contains(&"MessageHeader"));
    assert!(!names.contains(&"ModelYear"));

    let stub = generator.write_typing_hints(&classes).unwrap();
    assert_eq!(stub.len(), classes.len());
    let extras = stub.iter().find(|c| c.name == "OptionalExtras").unwrap();
    assert_eq!(extras.kind, ClassKind::BitSet);
    let flags: Vec<(&str, &str)> = extras
        .attributes
        .iter()
        .map(|l| (l.name.as_str(), l.annotation.as_str()))
        .collect();
    assert_eq!(
        flags,
        vec![("sun_roof", "bool"), ("sports_pack", "bool"), ("cruise_control", "bool")]
    );
    let boost = stub.iter().find(|c| c.name == "BoostType").unwrap();
    assert_eq!(boost.kind, ClassKind::Enum);
    assert_eq!(boost.attributes[0].name, "TURBO");
    assert_eq!(boost.attributes[0].annotation, "84");
    let booster = stub.iter().find(|c| c.name == "Booster").unwrap();
    assert_eq!(booster.kind, ClassKind::Composite);
    assert_eq!(booster.attributes[0].name, "boost_type");
    assert_eq!(booster.attributes[0].annotation, "BoostType");
    assert_eq!(booster.init[1].annotation, "int,");
    let engine = stub.iter().find(|c| c.name == "Engine").unwrap();
    assert_eq!(engine.attributes.len(), 8);
    assert_eq!(engine.init.len(), 6);
    let car_class = stub.iter().find(|c| c.name == "Car").unwrap();
    assert_eq!(car_class.kind, ClassKind::Message);
    assert_eq!(car_class.attributes.len(), 16);
    assert_eq!(car_class.init.len(), 15);
    assert_eq!(car_class.init[14].name, "discount");

    assert_eq!(generator.composite_classes().unwrap().len(), 7);
    assert_eq!(generator.group_classes().unwrap().len(), 3);
    assert_eq!(generator.message_classes().unwrap().len(), 1);
    let one = typing_class(
        "Model",
        &ExportedClass::Enum(enumeration("Model", NativeType::UInt8, &[("bad", "x")])),
        &schema.types,
    );
    assert_eq!(one.unwrap_err(), SchemaError::InvalidEnumValue(text("x")));
}

#[test]
fn plan_of_a_block_is_where_the_wire_puts_the_values() {
    let schema = car();
    let car = schema.message_types.message_types.get("Car").unwrap();
    let plan = message_codec(&schema.types, car).unwrap();
    let mut fields = Vec::new();
    for accessor in &plan.encoder_fields {
        if let FieldAccessor::Value(value) = accessor {
            let null = value.null_value.clone().unwrap_or(
                value
                    .metadata
                    .field_primitive_type
                    .null()
                    .unwrap(),
            );
            if let Some(field) = scalar_field(value, &null) {
                fields.push(field);
            }
        }
    }
    let names: Vec<&str> = fields.iter().map(|f| f.name.as_str()).collect();
    assert_eq!(names, vec!["serial_number", "model_year", "discount"]);
    assert_eq!(fields[0].offset, 8);
    assert_eq!(fields[0].primitive, Primitive::UInt64);
    assert_eq!(fields[1].offset, 16);
    assert_eq!(fields[2].offset, 53);
    assert_eq!(fields[2].null_value, -128);

    let header = HeaderLayout {
        block_length: ScalarField::new("block_length", 0, Primitive::UInt16),
        template_id: ScalarField::new("template_id", 2, Primitive::UInt16),
        schema_id: ScalarField::new("schema_id", 4, Primitive::UInt16),
        version: ScalarField::new("version", 6, Primitive::UInt16),
    };
    let order = schema.byte_order;
    let mut buffer = vec![0u8; plan.header_size + plan.block_length];
    header
        .encode(&mut buffer, order, plan.block_length, plan.id, schema.id, 0)
        .unwrap();
    encode_block(&fields, &mut buffer, order, &vec![1234, 2013, 5]).unwrap();
    assert_eq!(&buffer[..8], &[46, 0, 1, 0, 1, 0, 0, 0]);
    assert_eq!(&buffer[8..18], &[0xD2, 0x04, 0, 0, 0, 0, 0, 0, 0xDD, 0x07]);
    assert_eq!(buffer[53], 5);
    assert_eq!(header.check(&buffer, order, plan.id), Ok(()));
    assert_eq!(decode_block(&fields, &buffer, order), Ok(vec![1234, 2013, 5]));

    let efficiency = schema.types.find_type("efficiency").unwrap();
    let accessor = field_accessor(&schema.types, CodecSide::Encoder, "efficiency", &efficiency, 6)
        .unwrap();
    match accessor {
        FieldAccessor::Value(value) => {
            let field = scalar_field(&value, "i8::MIN").unwrap();
            assert_eq!(field.min_value, Some(0));
            assert_eq!(field.max_value, Some(100));
            assert_eq!(field.offset, 6);
            assert!(scalar_field(&value, "no number").is_none());
        }
        other => panic!("a value accessor was expected, not {:?}", other),
    }
}
