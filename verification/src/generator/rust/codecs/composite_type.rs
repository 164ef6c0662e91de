//! What the codecs of a composite are made of: one accessor for each sub-field, placed at
//! the sum of the sizes of the sub-fields before it.

use crate::duplicate::views_of;
use crate::error::{Fault, SchemaError};
use crate::generator::common::{
    variable_value_text, variable_value_type, FieldMetadata, FieldMetadataView,
};
use crate::models::sizing::{lemma_fields_size_step, type_size_within};
use crate::models::types::composite_type::{CompositeType, CompositeTypeView};
use crate::models::types::encoded_data_type::{EncodedDataType, EncodedDataTypeView};
use crate::models::types::primitive_type::{
    resolved_kind, NativeType, NativeTypeView, ResolvableType,
};
use crate::models::types::{lemma_type_views, type_views, Presence, SizedEncoded, Type, TypeView};
use crate::models::{TypeMap, TypeMapView};
use crate::naming::{camel_name, case_converted, constant_name, snake_name, NameCase};
use crate::text::{
    contains, contains_text, copy_text, decimal, decimal_text, joined, opt_text, quoted,
    quoted_text,
};
use vstd::prelude::*;
use vstd::string::*;

verus! {

/// The two codecs of every construct.
#[derive(PartialEq, Eq, Structural, Debug, Copy, Clone)]
pub enum CodecSide {
    Decoder,
    Encoder,
}

/// How the value of an encoded field reaches the caller.
#[derive(PartialEq, Eq, Structural, Debug, Copy, Clone)]
pub enum ValueShape {
    /// Two characters or more: a text.
    Text,
    /// Two elements or more of another kind: an array.
    Array,
    /// One primitive.
    Single,
}

/// A getter for a field that the schema fixes: it reads no byte.
#[derive(Debug)]
pub struct ConstantAccessor {
    /// The name of the getter.
    pub field_name: String,
    /// The type that the getter returns.
    pub value_type: String,
    /// The literal that the getter returns, as it stands in emitted code.
    pub value: String,
}

/// The mathematical content of a [`ConstantAccessor`].
pub struct ConstantAccessorView {
    pub field_name: Seq<char>,
    pub value_type: Seq<char>,
    pub value: Seq<char>,
}

impl View for ConstantAccessor {
    type V = ConstantAccessorView;

    open spec fn view(&self) -> ConstantAccessorView {
        ConstantAccessorView {
            field_name: self.field_name@,
            value_type: self.value_type@,
            value: self.value@,
        }
    }
}

/// An accessor for an encoded field that is on the wire.
#[derive(Debug)]
pub struct ValueAccessor {
    /// Name, primitive, element size and element count.
    pub metadata: FieldMetadata,
    /// Where the field starts, counted from the start of its container.
    pub offset: usize,
    /// Whether the value is a text, an array or a single primitive.
    pub shape: ValueShape,
    /// Whether the field may be absent.
    pub optional: bool,
    /// The type of the value in emitted code.
    pub value_type: String,
    /// The literal that stands for absence; only for an optional field.
    pub null_value: Option<String>,
    /// The test for absence, in emitted code; only for an optional field of a decoder.
    pub null_condition: Option<String>,
    /// The least value allowed, if one is declared.
    pub min_value: Option<String>,
    /// The greatest value allowed, if one is declared.
    pub max_value: Option<String>,
}

/// The mathematical content of a [`ValueAccessor`].
pub struct ValueAccessorView {
    pub metadata: FieldMetadataView,
    pub offset: usize,
    pub shape: ValueShape,
    pub optional: bool,
    pub value_type: Seq<char>,
    pub null_value: Option<Seq<char>>,
    pub null_condition: Option<Seq<char>>,
    pub min_value: Option<Seq<char>>,
    pub max_value: Option<Seq<char>>,
}

impl View for ValueAccessor {
    type V = ValueAccessorView;

    open spec fn view(&self) -> ValueAccessorView {
        ValueAccessorView {
            metadata: self.metadata@,
            offset: self.offset,
            shape: self.shape,
            optional: self.optional,
            value_type: self.value_type@,
            null_value: opt_text(self.null_value),
            null_condition: opt_text(self.null_condition),
            min_value: opt_text(self.min_value),
            max_value: opt_text(self.max_value),
        }
    }
}

/// An accessor for a field of an enum or bit-set type: one primitive on the wire.
#[derive(Debug)]
pub struct NamedAccessor {
    /// The name of the accessor.
    pub field_name: String,
    /// The name of the enum or bit-set in emitted code.
    pub named_type: String,
    /// The primitive that is read or written.
    pub lang_type: String,
    /// Where the field starts.
    pub offset: usize,
}

/// The mathematical content of a [`NamedAccessor`].
pub struct NamedAccessorView {
    pub field_name: Seq<char>,
    pub named_type: Seq<char>,
    pub lang_type: Seq<char>,
    pub offset: usize,
}

impl View for NamedAccessor {
    type V = NamedAccessorView;

    open spec fn view(&self) -> NamedAccessorView {
        NamedAccessorView {
            field_name: self.field_name@,
            named_type: self.named_type@,
            lang_type: self.lang_type@,
            offset: self.offset,
        }
    }
}

/// A scoped accessor that hands out the codec of a nested composite.
#[derive(Debug)]
pub struct CompositeAccessor {
    /// The name of the accessor, without its `_decoder` or `_encoder` ending.
    pub field_name: String,
    /// The name of the nested codec.
    pub codec_name: String,
    /// Where the nested composite starts.
    pub offset: usize,
}

/// The mathematical content of a [`CompositeAccessor`].
pub struct CompositeAccessorView {
    pub field_name: Seq<char>,
    pub codec_name: Seq<char>,
    pub offset: usize,
}

impl View for CompositeAccessor {
    type V = CompositeAccessorView;

    open spec fn view(&self) -> CompositeAccessorView {
        CompositeAccessorView {
            field_name: self.field_name@,
            codec_name: self.codec_name@,
            offset: self.offset,
        }
    }
}

/// A getter for a field that the schema fixes to one value of an enum.
#[derive(Debug)]
pub struct ConstantEnumAccessor {
    /// The name of the getter.
    pub field_name: String,
    /// The name of the enum in emitted code.
    pub named_type: String,
    /// The name of the value, as the enum declares it.
    pub variant: String,
}

/// The mathematical content of a [`ConstantEnumAccessor`].
pub struct ConstantEnumAccessorView {
    pub field_name: Seq<char>,
    pub named_type: Seq<char>,
    pub variant: Seq<char>,
}

impl View for ConstantEnumAccessor {
    type V = ConstantEnumAccessorView;

    open spec fn view(&self) -> ConstantEnumAccessorView {
        ConstantEnumAccessorView {
            field_name: self.field_name@,
            named_type: self.named_type@,
            variant: self.variant@,
        }
    }
}

/// What is emitted for one sub-field.
#[derive(Debug)]
pub enum FieldAccessor {
    /// A getter for a constant.
    Constant(ConstantAccessor),
    /// A getter for a constant value of an enum.
    ConstantEnum(ConstantEnumAccessor),
    /// An accessor for an encoded field on the wire.
    Value(ValueAccessor),
    /// An accessor for an enum.
    Enum(NamedAccessor),
    /// An accessor for a bit-set.
    BitSet(NamedAccessor),
    /// A scoped accessor for a nested composite.
    Composite(CompositeAccessor),
    /// Nothing: an encoder has no accessor for a constant.
    Skipped,
}

/// The mathematical content of a [`FieldAccessor`].
pub enum FieldAccessorView {
    Constant(ConstantAccessorView),
    ConstantEnum(ConstantEnumAccessorView),
    Value(ValueAccessorView),
    Enum(NamedAccessorView),
    BitSet(NamedAccessorView),
    Composite(CompositeAccessorView),
    Skipped,
}

impl View for FieldAccessor {
    type V = FieldAccessorView;

    open spec fn view(&self) -> FieldAccessorView {
        match *self {
            FieldAccessor::Constant(a) => FieldAccessorView::Constant(a@),
            FieldAccessor::ConstantEnum(a) => FieldAccessorView::ConstantEnum(a@),
            FieldAccessor::Value(a) => FieldAccessorView::Value(a@),
            FieldAccessor::Enum(a) => FieldAccessorView::Enum(a@),
            FieldAccessor::BitSet(a) => FieldAccessorView::BitSet(a@),
            FieldAccessor::Composite(a) => FieldAccessorView::Composite(a@),
            FieldAccessor::Skipped => FieldAccessorView::Skipped,
        }
    }
}

impl FieldAccessorView {
    /// Where the accessor reads or writes.  A getter for a constant and a skipped field
    /// read and write nowhere.
    pub open spec fn offset(self) -> Option<usize> {
        match self {
            FieldAccessorView::Value(a) => Some(a.offset),
            FieldAccessorView::Enum(a) => Some(a.offset),
            FieldAccessorView::BitSet(a) => Some(a.offset),
            FieldAccessorView::Composite(a) => Some(a.offset),
            _ => None,
        }
    }

    /// The bytes that the accessor reads or writes: where they start, and how many.
    /// A constant and a skipped field touch none.  A nested composite is left to its own
    /// accessors.
    pub open spec fn span(self) -> Option<(nat, nat)> {
        match self {
            FieldAccessorView::Value(a) => Some(
                (a.offset as nat, a.metadata.type_size * a.metadata.field_length),
            ),
            _ => None,
        }
    }
}

/// The shape of a value of `length` elements of the kind `kind`.
pub open spec fn shape_of(kind: NativeTypeView, length: nat) -> ValueShape {
    if length >= 2 && kind is Char {
        ValueShape::Text
    } else if length >= 2 {
        ValueShape::Array
    } else {
        ValueShape::Single
    }
}

/// The type of the value that an encoder takes: borrowed text for two characters or more,
/// a borrowed array for two elements or more of another kind, else the primitive itself.
pub open spec fn value_type_text(kind: NativeTypeView, rust_type: Seq<char>, length: nat) -> Seq<
    char,
> {
    if length >= 2 && kind is Char {
        "&str"@
    } else if length >= 2 {
        "&["@ + rust_type + "; "@ + decimal_text(length) + "]"@
    } else {
        rust_type
    }
}

/// The literal of a constant as it stands in emitted code: a character constant is quoted.
pub open spec fn default_value_text(default_value: Seq<char>, kind: NativeTypeView) -> Seq<char> {
    if kind is Char {
        quoted_text(default_value)
    } else {
        default_value
    }
}

/// The literal that stands for absence: the one that the schema declares, or else the one
/// of the primitive kind.
pub open spec fn null_value_of(e: EncodedDataTypeView, kind: NativeTypeView) -> Result<
    Seq<char>,
    Fault,
> {
    match kind.null_literal() {
        Err(f) => Err(f),
        Ok(of_kind) => Ok(
            match e.null_value {
                Some(declared) => declared,
                None => of_kind,
            },
        ),
    }
}

/// The test that tells absence.  A null that is a NaN is told by a predicate, since a NaN
/// is not equal to itself; any other by equality.
pub open spec fn null_condition_text(variable: Seq<char>, null_value: Seq<char>) -> Seq<char> {
    if contains_text(null_value, "NAN"@) {
        variable + ".is_nan()"@
    } else {
        variable + " == "@ + null_value
    }
}

/// The name of the variable that a decoder tests for absence: a single value is tested
/// itself; of an array or a text every element is tested, one after the other.
pub open spec fn tested_variable(shape: ValueShape) -> Seq<char> {
    if shape is Single {
        "value"@
    } else {
        "part"@
    }
}

impl TypeMapView {
    /// The getter for a constant of a composite.
    pub open spec fn constant_accessor(self, field_name: Seq<char>, e: EncodedDataTypeView) -> Result<
        ConstantAccessorView,
        Fault,
    > {
        match self.field_metadata(field_name, e) {
            Err(f) => Err(f),
            Ok(m) => match e.default_value {
                None => Err(Fault::ConstantWithoutValue(m.field_name)),
                Some(value) => Ok(
                    ConstantAccessorView {
                        field_name: m.field_name,
                        value_type: if m.field_length >= 2 && m.field_primitive_type is Char {
                            "&'static str"@
                        } else {
                            m.lang_type
                        },
                        value: default_value_text(value, m.field_primitive_type),
                    },
                ),
            },
        }
    }

    /// The accessor for an encoded field on the wire.  Bounds are checked on single
    /// values only.
    pub open spec fn value_accessor(
        self,
        side: CodecSide,
        field_name: Seq<char>,
        e: EncodedDataTypeView,
        offset: usize,
    ) -> Result<ValueAccessorView, Fault> {
        match self.field_metadata(field_name, e) {
            Err(f) => Err(f),
            Ok(m) => {
                let shape = shape_of(m.field_primitive_type, m.field_length);
                let optional = e.presence == Presence::Optional;
                match null_value_of(e, m.field_primitive_type) {
                    Err(f) if optional => Err(f),
                    null => Ok(
                        ValueAccessorView {
                            metadata: m,
                            offset,
                            shape,
                            optional,
                            value_type: if side is Decoder {
                                variable_value_text(
                                    m.field_primitive_type,
                                    m.lang_type,
                                    m.field_length,
                                )
                            } else {
                                value_type_text(m.field_primitive_type, m.lang_type, m.field_length)
                            },
                            null_value: if optional && side is Encoder {
                                Some(null->Ok_0)
                            } else {
                                None
                            },
                            null_condition: if optional && side is Decoder {
                                Some(null_condition_text(tested_variable(shape), null->Ok_0))
                            } else {
                                None
                            },
                            min_value: if shape is Single {
                                e.min_value
                            } else {
                                None
                            },
                            max_value: if shape is Single {
                                e.max_value
                            } else {
                                None
                            },
                        },
                    ),
                }
            },
        }
    }

    /// The accessor for a field of an enum or bit-set type.
    pub open spec fn named_accessor(
        self,
        field_name: Seq<char>,
        declared_name: Seq<char>,
        encoding_type: NativeTypeView,
        offset: usize,
    ) -> Result<NamedAccessorView, Fault> {
        match resolved_kind(self.encoded_types, encoding_type, self.encoded_types.len()) {
            Err(f) => Err(f),
            Ok(kind) => Ok(
                NamedAccessorView {
                    field_name: case_converted(field_name, NameCase::Snake),
                    named_type: case_converted(declared_name, NameCase::UpperCamel),
                    lang_type: kind.rust_name(),
                    offset,
                },
            ),
        }
    }

    /// What is emitted for a sub-field whose type is at hand.
    pub open spec fn direct_accessor(
        self,
        side: CodecSide,
        field_name: Seq<char>,
        t: TypeView,
        offset: usize,
    ) -> Result<FieldAccessorView, Fault> {
        match t {
            TypeView::EncodedData(e) => if e.presence == Presence::Constant {
                if side is Encoder {
                    Ok(FieldAccessorView::Skipped)
                } else {
                    match self.constant_accessor(field_name, e) {
                        Ok(a) => Ok(FieldAccessorView::Constant(a)),
                        Err(f) => Err(f),
                    }
                }
            } else {
                match self.value_accessor(side, field_name, e, offset) {
                    Ok(a) => Ok(FieldAccessorView::Value(a)),
                    Err(f) => Err(f),
                }
            },
            TypeView::Enum(e) => match self.named_accessor(
                field_name,
                e.name,
                e.encoding_type,
                offset,
            ) {
                Ok(a) => Ok(FieldAccessorView::Enum(a)),
                Err(f) => Err(f),
            },
            TypeView::BitSet(s) => match self.named_accessor(
                field_name,
                s.name,
                s.encoding_type,
                offset,
            ) {
                Ok(a) => Ok(FieldAccessorView::BitSet(a)),
                Err(f) => Err(f),
            },
            TypeView::Composite(c) => Ok(
                FieldAccessorView::Composite(
                    CompositeAccessorView {
                        field_name: case_converted(field_name, NameCase::Snake),
                        codec_name: codec_name_text(c.name, side),
                        offset,
                    },
                ),
            ),
            TypeView::Reference(r) => Err(Fault::UnknownType(r.type_ref)),
        }
    }

    /// What is emitted for a sub-field.  A reference is emitted as the type that it names.
    pub open spec fn accessor(
        self,
        side: CodecSide,
        field_name: Seq<char>,
        t: TypeView,
        offset: usize,
    ) -> Result<FieldAccessorView, Fault> {
        match t {
            TypeView::Reference(r) => match self.find(r.type_ref) {
                Some(found) => self.direct_accessor(side, field_name, found, offset),
                None => Err(Fault::UnknownType(r.type_ref)),
            },
            _ => self.direct_accessor(side, field_name, t, offset),
        }
    }

    /// The accessors of the first `n` sub-fields of a composite, each at the sum of the
    /// sizes of those before it.
    pub open spec fn accessors(self, side: CodecSide, fields: Seq<TypeView>, n: nat) -> Result<
        Seq<FieldAccessorView>,
        Fault,
    >
        decreases n,
    {
        if n == 0 || n > fields.len() {
            Ok(Seq::empty())
        } else {
            match self.accessors(side, fields, (n - 1) as nat) {
                Err(f) => Err(f),
                Ok(before) => match self.offset_of(fields, n - 1, self.count()) {
                    Err(f) => Err(f),
                    Ok(offset) => match self.accessor(
                        side,
                        fields[n - 1].name(),
                        fields[n - 1],
                        offset as usize,
                    ) {
                        Err(f) => Err(f),
                        Ok(a) => Ok(before.push(a)),
                    },
                },
            }
        }
    }
}

/// The name of the codec of a construct: its name in camel case, then the side.
pub open spec fn codec_name_text(name: Seq<char>, side: CodecSide) -> Seq<char> {
    case_converted(name, NameCase::UpperCamel) + if side is Decoder {
        "Decoder"@
    } else {
        "Encoder"@
    }
}

/// The name of the codec of a construct.
pub fn codec_name(name: &str, side: CodecSide) -> (r: String)
    ensures
        r@ == codec_name_text(name@, side),
{
    match side {
        CodecSide::Decoder => camel_name(name).concat("Decoder"),
        CodecSide::Encoder => camel_name(name).concat("Encoder"),
    }
}

/// The shape of a value.
pub fn value_shape(kind: &NativeType, length: usize) -> (r: ValueShape)
    ensures
        r == shape_of(kind@, length as nat),
{
    if length >= 2 {
        match kind {
            NativeType::Char => ValueShape::Text,
            _ => ValueShape::Array,
        }
    } else {
        ValueShape::Single
    }
}

/// The type of the value that an encoder takes.
pub fn value_type(field_primitive_type: &NativeType, rust_type: &str, field_length: usize) -> (r:
    String)
    ensures
        r@ == value_type_text(field_primitive_type@, rust_type@, field_length as nat),
{
    if field_length >= 2 {
        match field_primitive_type {
            NativeType::Char => String::from_str("&str"),
            _ => String::from_str("&[").concat(rust_type).concat("; ").concat(
                decimal(field_length).as_str(),
            ).concat("]"),
        }
    } else {
        String::from_str(rust_type)
    }
}

/// The literal of a constant as it stands in emitted code.
pub fn default_value(literal: &str, field_type: &NativeType) -> (r: String)
    ensures
        r@ == default_value_text(literal@, field_type@),
{
    match field_type {
        NativeType::Char => quoted(literal),
        _ => String::from_str(literal),
    }
}

/// The literal that stands for absence in a field of type `encoded_type`.
pub fn null_literal(encoded_type: &EncodedDataType, field_type: &NativeType) -> (r: Result<
    String,
    SchemaError,
>)
    ensures
        crate::error::text_outcome(r) == null_value_of(encoded_type@, field_type@),
{
    let of_kind = match field_type.null() {
        Ok(n) => n,
        Err(e) => { return Err(e); },
    };
    Ok(
        match &encoded_type.null_value {
            Some(declared) => declared.clone(),
            None => of_kind,
        },
    )
}

/// The test that tells whether `variable` holds the null of the field.
pub fn null_value_condition(
    variable: &str,
    field_type: &NativeType,
    encoded_type: &EncodedDataType,
) -> (r: Result<String, SchemaError>)
    ensures
        crate::error::text_outcome(r) == match null_value_of(encoded_type@, field_type@) {
            Ok(n) => Ok::<Seq<char>, Fault>(null_condition_text(variable@, n)),
            Err(f) => Err::<Seq<char>, Fault>(f),
        },
{
    let null_value = match null_literal(encoded_type, field_type) {
        Ok(n) => n,
        Err(e) => { return Err(e); },
    };
    if contains(null_value.as_str(), "NAN") {
        Ok(joined(variable, ".is_nan()"))
    } else {
        Ok(String::from_str(variable).concat(" == ").concat(null_value.as_str()))
    }
}

/// What is emitted for a sub-field, for one side.
pub fn field_accessor(
    types: &TypeMap,
    side: CodecSide,
    field_name: &str,
    field: &Type,
    offset: usize,
) -> (r: Result<FieldAccessor, SchemaError>)
    ensures
        match r {
            Ok(a) => types@.accessor(side, field_name@, field@, offset) == Ok::<
                FieldAccessorView,
                Fault,
            >(a@),
            Err(e) => types@.accessor(side, field_name@, field@, offset) == Err::<
                FieldAccessorView,
                Fault,
            >(e@),
        },
{
    match field {
        Type::Reference(reference_type) => {
            match types.find_type(reference_type.type_ref.as_str()) {
                Some(referenced_type) => direct_field_accessor(
                    types,
                    side,
                    field_name,
                    &referenced_type,
                    offset,
                ),
                None => Err(SchemaError::UnknownType(reference_type.type_ref.clone())),
            }
        },
        _ => direct_field_accessor(types, side, field_name, field, offset),
    }
}

fn direct_field_accessor(
    types: &TypeMap,
    side: CodecSide,
    field_name: &str,
    field: &Type,
    offset: usize,
) -> (r: Result<FieldAccessor, SchemaError>)
    ensures
        match r {
            Ok(a) => types@.direct_accessor(side, field_name@, field@, offset) == Ok::<
                FieldAccessorView,
                Fault,
            >(a@),
            Err(e) => types@.direct_accessor(side, field_name@, field@, offset) == Err::<
                FieldAccessorView,
                Fault,
            >(e@),
        },
{
    match field {
        Type::EncodedData(encoded_type) => match encoded_type.presence {
            Presence::Constant => match side {
                CodecSide::Encoder => Ok(FieldAccessor::Skipped),
                CodecSide::Decoder => match generate_encoded_constant_field(
                    types,
                    field_name,
                    encoded_type,
                ) {
                    Ok(a) => Ok(FieldAccessor::Constant(a)),
                    Err(e) => Err(e),
                },
            },
            _ => match generate_encoded_value_field(types, side, field_name, encoded_type, offset) {
                Ok(a) => Ok(FieldAccessor::Value(a)),
                Err(e) => Err(e),
            },
        },
        Type::Enum(enum_type) => match generate_named_field(
            types,
            field_name,
            enum_type.name.as_str(),
            &enum_type.encoding_type,
            offset,
        ) {
            Ok(a) => Ok(FieldAccessor::Enum(a)),
            Err(e) => Err(e),
        },
        Type::BitSet(set_type) => match generate_named_field(
            types,
            field_name,
            set_type.name.as_str(),
            &set_type.encoding_type,
            offset,
        ) {
            Ok(a) => Ok(FieldAccessor::BitSet(a)),
            Err(e) => Err(e),
        },
        Type::Composite(composite_type) => Ok(
            FieldAccessor::Composite(
                CompositeAccessor {
                    field_name: snake_name(field_name),
                    codec_name: codec_name(composite_type.name.as_str(), side),
                    offset,
                },
            ),
        ),
        Type::Reference(reference_type) => Err(
            SchemaError::UnknownType(reference_type.type_ref.clone()),
        ),
    }
}

/// The getter for a constant of a composite.
pub fn generate_encoded_constant_field(
    types: &TypeMap,
    field_name: &str,
    encoded_type: &EncodedDataType,
) -> (r: Result<ConstantAccessor, SchemaError>)
    ensures
        match r {
            Ok(a) => types@.constant_accessor(field_name@, encoded_type@) == Ok::<
                ConstantAccessorView,
                Fault,
            >(a@),
            Err(e) => types@.constant_accessor(field_name@, encoded_type@) == Err::<
                ConstantAccessorView,
                Fault,
            >(e@),
        },
{
    let metadata = match FieldMetadata::from(field_name, encoded_type, types) {
        Ok(m) => m,
        Err(e) => { return Err(e); },
    };
    let value = match &encoded_type.default_value {
        Some(v) => v,
        None => { return Err(SchemaError::ConstantWithoutValue(metadata.field_name)); },
    };
    let value_type = match value_shape(&metadata.field_primitive_type, metadata.field_length) {
        ValueShape::Text => String::from_str("&'static str"),
        _ => String::from_str(metadata.lang_type.name),
    };
    let value = default_value(value.as_str(), &metadata.field_primitive_type);
    Ok(ConstantAccessor { field_name: metadata.field_name, value_type, value })
}

/// The accessor for an encoded field on the wire.
pub fn generate_encoded_value_field(
    types: &TypeMap,
    side: CodecSide,
    field_name: &str,
    encoded_type: &EncodedDataType,
    offset: usize,
) -> (r: Result<ValueAccessor, SchemaError>)
    ensures
        match r {
            Ok(a) => types@.value_accessor(side, field_name@, encoded_type@, offset) == Ok::<
                ValueAccessorView,
                Fault,
            >(a@),
            Err(e) => types@.value_accessor(side, field_name@, encoded_type@, offset) == Err::<
                ValueAccessorView,
                Fault,
            >(e@),
        },
{
    let metadata = match FieldMetadata::from(field_name, encoded_type, types) {
        Ok(m) => m,
        Err(e) => { return Err(e); },
    };
    let shape = value_shape(&metadata.field_primitive_type, metadata.field_length);
    let optional = match encoded_type.presence {
        Presence::Optional => true,
        _ => false,
    };
    let mut null: Option<String> = None;
    let mut null_condition: Option<String> = None;
    if optional {
        match side {
            CodecSide::Encoder => {
                null = match null_literal(encoded_type, &metadata.field_primitive_type) {
                    Ok(n) => Some(n),
                    Err(e) => { return Err(e); },
                };
            },
            CodecSide::Decoder => {
                let variable = match shape {
                    ValueShape::Single => "value",
                    _ => "part",
                };
                null_condition = match null_value_condition(
                    variable,
                    &metadata.field_primitive_type,
                    encoded_type,
                ) {
                    Ok(c) => Some(c),
                    Err(e) => { return Err(e); },
                };
            },
        }
    }
    let value_type = match side {
        CodecSide::Decoder => variable_value_type(
            &metadata.field_primitive_type,
            metadata.lang_type.name,
            metadata.field_length,
        ),
        CodecSide::Encoder => value_type(
            &metadata.field_primitive_type,
            metadata.lang_type.name,
            metadata.field_length,
        ),
    };
    let (min_value, max_value) = match shape {
        ValueShape::Single => (copy_text(&encoded_type.min_value), copy_text(&encoded_type.max_value)),
        _ => (None, None),
    };
    Ok(
        ValueAccessor {
            metadata,
            offset,
            shape,
            optional,
            value_type,
            null_value: null,
            null_condition,
            min_value,
            max_value,
        },
    )
}

/// The accessor for a field of an enum or bit-set type.
pub fn generate_named_field(
    types: &TypeMap,
    field_name: &str,
    declared_name: &str,
    encoding_type: &NativeType,
    offset: usize,
) -> (r: Result<NamedAccessor, SchemaError>)
    ensures
        match r {
            Ok(a) => types@.named_accessor(field_name@, declared_name@, encoding_type@, offset)
                == Ok::<NamedAccessorView, Fault>(a@),
            Err(e) => types@.named_accessor(field_name@, declared_name@, encoding_type@, offset)
                == Err::<NamedAccessorView, Fault>(e@),
        },
{
    let named_type = camel_name(declared_name);
    let field_name = snake_name(field_name);
    let kind = match encoding_type.resolved(&types.encoded_types) {
        Ok(k) => k,
        Err(e) => { return Err(e); },
    };
    Ok(
        NamedAccessor {
            field_name,
            named_type,
            lang_type: String::from_str(kind.rust_primitive().name),
            offset,
        },
    )
}

/// The accessors of the sub-fields of a composite, for one side.
pub fn generate_fields(types: &TypeMap, side: CodecSide, fields: &Vec<Type>) -> (r: Result<
    Vec<FieldAccessor>,
    SchemaError,
>)
    ensures
        match r {
            Ok(a) => types@.accessors(side, type_views(fields@), fields@.len()) == Ok::<
                Seq<FieldAccessorView>,
                Fault,
            >(views_of(a@)),
            Err(e) => types@.accessors(side, type_views(fields@), fields@.len()) == Err::<
                Seq<FieldAccessorView>,
                Fault,
            >(e@),
        },
{
    let ghost views = type_views(fields@);
    proof {
        lemma_type_views(fields@);
        assert(views.subrange(0, 0) =~= Seq::<TypeView>::empty());
    }
    let fuel = types.count();
    let mut offset: usize = 0;
    let mut out: Vec<FieldAccessor> = Vec::new();
    assert(views_of(out@) =~= Seq::<FieldAccessorView>::empty());
    let mut i: usize = 0;
    while i < fields.len()
        invariant
            i <= fields.len(),
            fuel == types@.count(),
            views == type_views(fields@),
            views.len() == fields.len(),
            forall|j: int| 0 <= j < fields.len() ==> (#[trigger] views[j]) == fields@[j]@,
            types@.accessors(side, views, i as nat) == Ok::<Seq<FieldAccessorView>, Fault>(
                views_of(out@),
            ),
            i < fields.len() ==> types@.offset_of(views, i as int, fuel as nat) == Ok::<nat, Fault>(
                offset as nat,
            ),
        decreases fields.len() - i,
    {
        let ghost before = views_of(out@);
        let accessor = match field_accessor(types, side, fields[i].name(), &fields[i], offset) {
            Ok(a) => a,
            Err(e) => {
                proof {
                    lemma_accessors_fault(types@, side, views, i as nat + 1, fields@.len());
                }
                return Err(e);
            },
        };
        out.push(accessor);
        assert(views_of(out@) =~= before.push(accessor@));
        i = i + 1;
        if i < fields.len() {
            proof {
                lemma_fields_size_step(types@, views, i as int - 1, fuel as nat);
            }
            let size = match type_size_within(&fields[i - 1], types, fuel) {
                Ok(n) => n,
                Err(e) => {
                    proof {
                        lemma_accessors_fault(types@, side, views, i as nat + 1, fields@.len());
                    }
                    return Err(e);
                },
            };
            offset = match offset.checked_add(size) {
                Some(n) => n,
                None => {
                    proof {
                        lemma_accessors_fault(types@, side, views, i as nat + 1, fields@.len());
                    }
                    return Err(SchemaError::SizeOverflow);
                },
            };
        }
    }
    Ok(out)
}

/// A sum of sizes fits in `usize`.
pub proof fn lemma_fields_size_fits(types: TypeMapView, fields: Seq<TypeView>, fuel: nat)
    ensures
        types.fields_size(fields, fuel) matches Ok(n) ==> n <= usize::MAX,
{
}

/// The `i`-th accessor of a composite is the accessor of its `i`-th sub-field at the
/// offset of that sub-field.
pub proof fn lemma_accessors_index(
    types: TypeMapView,
    side: CodecSide,
    fields: Seq<TypeView>,
    n: nat,
    i: int,
)
    requires
        n <= fields.len(),
        types.accessors(side, fields, n) is Ok,
        0 <= i < n,
    ensures
        types.accessors(side, fields, n)->Ok_0.len() == n,
        types.offset_of(fields, i, types.count()) is Ok,
        types.accessor(
            side,
            fields[i].name(),
            fields[i],
            types.offset_of(fields, i, types.count())->Ok_0 as usize,
        ) == Ok::<FieldAccessorView, Fault>(types.accessors(side, fields, n)->Ok_0[i]),
    decreases n,
{
    if i < n - 1 {
        lemma_accessors_index(types, side, fields, (n - 1) as nat, i);
    } else if n > 1 {
        lemma_accessors_index(types, side, fields, (n - 1) as nat, 0);
    }
}

/// An accessor reads and writes at the offset that it was made for, whatever its kind.
pub proof fn lemma_accessor_offset(
    types: TypeMapView,
    side: CodecSide,
    field_name: Seq<char>,
    t: TypeView,
    offset: usize,
)
    ensures
        types.accessor(side, field_name, t, offset) matches Ok(a) ==> (a.offset() matches Some(o)
            ==> o == offset),
{
}

/// Offsets by prefix sums: every accessor of a composite reads and writes where the
/// sub-fields before its own end, and its sub-field ends where the next one starts or
/// before.  So no two sub-fields of a composite share a byte, of whatever kind they are.
pub proof fn lemma_accessors_by_prefix_sums(
    types: TypeMapView,
    side: CodecSide,
    fields: Seq<TypeView>,
    i: int,
    j: int,
)
    requires
        types.fields_size(fields, types.count()) is Ok,
        types.accessors(side, fields, fields.len()) is Ok,
        0 <= i < j < fields.len(),
    ensures
        ({
            let accessors = types.accessors(side, fields, fields.len())->Ok_0;
            let size = types.type_size(fields[i], types.count());
            let next = types.offset_of(fields, j, types.count());
            &&& size is Ok
            &&& next is Ok
            &&& accessors[i].offset() matches Some(o) ==> o + size->Ok_0 <= next->Ok_0
            &&& accessors[j].offset() matches Some(o) ==> o == next->Ok_0
        }),
{
    let fuel = types.count();
    assert(fields.subrange(0, fields.len() as int) == fields);
    crate::models::sizing::lemma_offsets_ascend(types, fields, j, fields.len() as int, fuel);
    crate::models::sizing::lemma_offsets_ascend(types, fields, i, j, fuel);
    lemma_accessors_index(types, side, fields, fields.len(), i);
    lemma_accessors_index(types, side, fields, fields.len(), j);
    lemma_fields_size_fits(types, fields.subrange(0, i), fuel);
    lemma_fields_size_fits(types, fields.subrange(0, j), fuel);
}

/// An accessor for a value on the wire covers exactly the bytes that the size oracle
/// gives to its field: as many elements as the field holds, each of the size of the
/// primitive, from the offset that the accessor was made for.
pub proof fn lemma_value_span(
    types: TypeMapView,
    side: CodecSide,
    field_name: Seq<char>,
    t: TypeView,
    offset: usize,
)
    requires
        types.accessor(side, field_name, t, offset) matches Ok(FieldAccessorView::Value(_)),
        types.type_size(t, types.count()) is Ok,
    ensures
        types.accessor(side, field_name, t, offset)->Ok_0.span() == Some(
            (offset as nat, types.type_size(t, types.count())->Ok_0),
        ),
{
    let fuel = types.count();
    let direct = match t {
        TypeView::Reference(r) => types.find(r.type_ref)->Some_0,
        _ => t,
    };
    let e = direct->EncodedData_0;
    assert(direct is EncodedData);
    let m = types.field_metadata(field_name, e)->Ok_0;
    let unit = types.native_size(e.primitive_type, fuel)->Ok_0;
    let count = crate::models::sizing::element_count(e);
    assert(types.unit_size(direct, fuel) == types.native_size(e.primitive_type, fuel));
    assert(unit * ((unit * count) / unit) == unit * count) by (nonlinear_arith)
        requires
            unit > 0,
    ;
    assert(types.type_size(direct, fuel) == Ok::<nat, Fault>(unit * count));
    if t is Reference {
        crate::models::sizing::lemma_type_size_fuel(types, direct, (fuel - 1) as nat, fuel);
    }
}

/// Two accessors of a composite for values on the wire do not overlap: the one that
/// comes first ends where the other starts, or before; and the last ends within the
/// composite.
pub proof fn lemma_accessors_apart(
    types: TypeMapView,
    side: CodecSide,
    fields: Seq<TypeView>,
    i: int,
    j: int,
)
    requires
        types.fields_size(fields, types.count()) is Ok,
        types.accessors(side, fields, fields.len()) is Ok,
        0 <= i < j < fields.len(),
        types.accessors(side, fields, fields.len())->Ok_0[i] is Value,
        types.accessors(side, fields, fields.len())->Ok_0[j] is Value,
    ensures
        ({
            let accessors = types.accessors(side, fields, fields.len())->Ok_0;
            let first = accessors[i].span()->Some_0;
            let second = accessors[j].span()->Some_0;
            &&& first.0 + first.1 <= second.0
            &&& second.0 + second.1 <= types.fields_size(fields, types.count())->Ok_0
        }),
{
    let fuel = types.count();
    assert(fields.subrange(0, fields.len() as int) == fields);
    crate::models::sizing::lemma_offsets_ascend(types, fields, j, fields.len() as int, fuel);
    crate::models::sizing::lemma_offsets_ascend(types, fields, i, j, fuel);
    lemma_accessors_index(types, side, fields, fields.len(), i);
    lemma_accessors_index(types, side, fields, fields.len(), j);
    lemma_fields_size_fits(types, fields.subrange(0, i), fuel);
    lemma_fields_size_fits(types, fields.subrange(0, j), fuel);
    let oi = types.offset_of(fields, i, fuel)->Ok_0;
    let oj = types.offset_of(fields, j, fuel)->Ok_0;
    lemma_value_span(types, side, fields[i].name(), fields[i], oi as usize);
    lemma_value_span(types, side, fields[j].name(), fields[j], oj as usize);
}

/// Constant elision: replacing the literal of a constant sub-field leaves the encoder
/// of the composite as it was.  It has the same accessors at the same offsets, so it
/// writes the same bytes; and the composite keeps its size.
pub proof fn lemma_constant_literal_leaves_encoder(
    types: TypeMapView,
    fields: Seq<TypeView>,
    k: int,
    literal: Option<Seq<char>>,
    n: nat,
)
    requires
        0 <= k < fields.len(),
        fields[k] matches TypeView::EncodedData(e) && e.presence == Presence::Constant,
        n <= fields.len(),
    ensures
        ({
            let e = fields[k]->EncodedData_0;
            let replaced = fields.update(
                k,
                TypeView::EncodedData(EncodedDataTypeView { default_value: literal, ..e }),
            );
            &&& types.accessors(CodecSide::Encoder, replaced, n) == types.accessors(
                CodecSide::Encoder,
                fields,
                n,
            )
            &&& types.fields_size(replaced, types.count()) == types.fields_size(
                fields,
                types.count(),
            )
        }),
    decreases n,
{
    crate::models::sizing::lemma_constant_literal_elided(types, fields, k, literal, types.count());
    if n > 0 {
        lemma_constant_literal_leaves_encoder(types, fields, k, literal, (n - 1) as nat);
    }
}

/// A fault among the first accessors is the fault of all.
pub proof fn lemma_accessors_fault(
    types: TypeMapView,
    side: CodecSide,
    fields: Seq<TypeView>,
    k: nat,
    n: nat,
)
    requires
        k <= n <= fields.len(),
        types.accessors(side, fields, k) is Err,
    ensures
        types.accessors(side, fields, n) == types.accessors(side, fields, k),
    decreases n - k,
{
    if k < n {
        lemma_accessors_fault(types, side, fields, k, (n - 1) as nat);
    }
}

/// All that the two codecs of a composite are made of.
#[derive(Debug)]
pub struct CompositeCodecPlan {
    /// The declared name.
    pub name: String,
    /// The name of the module that holds the two codecs.
    pub module_name: String,
    /// The name of the decoder.
    pub decoder_name: String,
    /// The name of the encoder.
    pub encoder_name: String,
    /// The name of the constant that holds the encoded length.
    pub length_constant: String,
    /// The size of the composite in bytes.
    pub encoded_length: usize,
    /// The accessors of the encoder, in declared order.
    pub encoder_fields: Vec<FieldAccessor>,
    /// The accessors of the decoder, in declared order.
    pub decoder_fields: Vec<FieldAccessor>,
}

/// The mathematical content of a [`CompositeCodecPlan`].
pub struct CompositeCodecPlanView {
    pub name: Seq<char>,
    pub module_name: Seq<char>,
    pub decoder_name: Seq<char>,
    pub encoder_name: Seq<char>,
    pub length_constant: Seq<char>,
    pub encoded_length: usize,
    pub encoder_fields: Seq<FieldAccessorView>,
    pub decoder_fields: Seq<FieldAccessorView>,
}

impl View for CompositeCodecPlan {
    type V = CompositeCodecPlanView;

    open spec fn view(&self) -> CompositeCodecPlanView {
        CompositeCodecPlanView {
            name: self.name@,
            module_name: self.module_name@,
            decoder_name: self.decoder_name@,
            encoder_name: self.encoder_name@,
            length_constant: self.length_constant@,
            encoded_length: self.encoded_length,
            encoder_fields: views_of(self.encoder_fields@),
            decoder_fields: views_of(self.decoder_fields@),
        }
    }
}

impl TypeMapView {
    /// All that the codecs of a composite are made of.  The size is worked out first,
    /// then the accessors of the encoder, then those of the decoder.
    #[verifier::opaque]
    pub open spec fn composite_plan(self, c: CompositeTypeView) -> Result<
        CompositeCodecPlanView,
        Fault,
    > {
        match self.fields_size(c.fields, self.count()) {
            Err(f) => Err(f),
            Ok(size) => match self.accessors(CodecSide::Encoder, c.fields, c.fields.len()) {
                Err(f) => Err(f),
                Ok(encoder_fields) => match self.accessors(
                    CodecSide::Decoder,
                    c.fields,
                    c.fields.len(),
                ) {
                    Err(f) => Err(f),
                    Ok(decoder_fields) => Ok(
                        CompositeCodecPlanView {
                            name: c.name,
                            module_name: case_converted(c.name, NameCase::Snake),
                            decoder_name: codec_name_text(c.name, CodecSide::Decoder),
                            encoder_name: codec_name_text(c.name, CodecSide::Encoder),
                            length_constant: case_converted(c.name, NameCase::ScreamingSnake)
                                + "_ENCODED_LENGTH"@,
                            encoded_length: size as usize,
                            encoder_fields,
                            decoder_fields,
                        },
                    ),
                },
            },
        }
    }
}

/// Works out the decoder of a composite.
pub struct RustCompositeDecoderGenerator<'a> {
    pub types: &'a TypeMap,
    pub package: &'a str,
}

impl RustCompositeDecoderGenerator<'_> {
    /// The accessors of a decoder for `fields`.
    pub fn generate_decoder_fields(&self, fields: &Vec<Type>) -> (r: Result<
        Vec<FieldAccessor>,
        SchemaError,
    >)
        ensures
            match r {
                Ok(a) => self.types@.accessors(
                    CodecSide::Decoder,
                    type_views(fields@),
                    fields@.len(),
                ) == Ok::<Seq<FieldAccessorView>, Fault>(views_of(a@)),
                Err(e) => self.types@.accessors(
                    CodecSide::Decoder,
                    type_views(fields@),
                    fields@.len(),
                ) == Err::<Seq<FieldAccessorView>, Fault>(e@),
            },
    {
        generate_fields(self.types, CodecSide::Decoder, fields)
    }

    /// The accessor of a decoder for the field `field_name` of type `field` at `offset`.
    pub fn generate_decoder_field(&self, field_name: &str, field: &Type, offset: usize) -> (r:
        Result<FieldAccessor, SchemaError>)
        ensures
            match r {
                Ok(a) => self.types@.accessor(CodecSide::Decoder, field_name@, field@, offset)
                    == Ok::<FieldAccessorView, Fault>(a@),
                Err(e) => self.types@.accessor(CodecSide::Decoder, field_name@, field@, offset)
                    == Err::<FieldAccessorView, Fault>(e@),
            },
    {
        field_accessor(self.types, CodecSide::Decoder, field_name, field, offset)
    }
}

/// Works out the encoder of a composite.
pub struct RustCompositeEncoderGenerator<'a> {
    pub types: &'a TypeMap,
    pub package: &'a str,
}

impl RustCompositeEncoderGenerator<'_> {
    /// The accessors of an encoder for `fields`.
    pub fn generate_encoder_fields(&self, fields: &Vec<Type>) -> (r: Result<
        Vec<FieldAccessor>,
        SchemaError,
    >)
        ensures
            match r {
                Ok(a) => self.types@.accessors(
                    CodecSide::Encoder,
                    type_views(fields@),
                    fields@.len(),
                ) == Ok::<Seq<FieldAccessorView>, Fault>(views_of(a@)),
                Err(e) => self.types@.accessors(
                    CodecSide::Encoder,
                    type_views(fields@),
                    fields@.len(),
                ) == Err::<Seq<FieldAccessorView>, Fault>(e@),
            },
    {
        generate_fields(self.types, CodecSide::Encoder, fields)
    }

    /// The accessor of an encoder for the field `field_name` of type `field` at `offset`.
    pub fn generate_encoder_field(&self, field_name: &str, field: &Type, offset: usize) -> (r:
        Result<FieldAccessor, SchemaError>)
        ensures
            match r {
                Ok(a) => self.types@.accessor(CodecSide::Encoder, field_name@, field@, offset)
                    == Ok::<FieldAccessorView, Fault>(a@),
                Err(e) => self.types@.accessor(CodecSide::Encoder, field_name@, field@, offset)
                    == Err::<FieldAccessorView, Fault>(e@),
            },
    {
        field_accessor(self.types, CodecSide::Encoder, field_name, field, offset)
    }
}

/// All that the codecs of a composite are made of.
pub fn composite_codec(types: &TypeMap, composite_type: &CompositeType) -> (r: Result<
    CompositeCodecPlan,
    SchemaError,
>)
    ensures
        match r {
            Ok(p) => types@.composite_plan(composite_type@) == Ok::<CompositeCodecPlanView, Fault>(
                p@,
            ),
            Err(e) => types@.composite_plan(composite_type@) == Err::<
                CompositeCodecPlanView,
                Fault,
            >(e@),
        },
{
    reveal(TypeMapView::composite_plan);
    proof {
        lemma_type_views(composite_type.fields@);
    }
    let name = composite_type.name.as_str();
    let encoded_length = match composite_type.size(types) {
        Ok(n) => n,
        Err(e) => { return Err(e); },
    };
    let encoder_fields = match generate_fields(types, CodecSide::Encoder, &composite_type.fields) {
        Ok(a) => a,
        Err(e) => { return Err(e); },
    };
    let decoder_fields = match generate_fields(types, CodecSide::Decoder, &composite_type.fields) {
        Ok(a) => a,
        Err(e) => { return Err(e); },
    };
    Ok(
        CompositeCodecPlan {
            name: String::from_str(name),
            module_name: snake_name(name),
            decoder_name: codec_name(name, CodecSide::Decoder),
            encoder_name: codec_name(name, CodecSide::Encoder),
            length_constant: constant_name(name).concat("_ENCODED_LENGTH"),
            encoded_length,
            encoder_fields,
            decoder_fields,
        },
    )
}

} // verus!
