//! What the data classes of the scripting layer are made of: one class for each
//! composite, group and message, with plain attributes in place of accessors.

use crate::duplicate::views_of;
use crate::error::{Fault, SchemaError};
use crate::generator::common::{
    field_groups, gathered, group_fields, lemma_gathered_fault, plain_fields, var_data_fields,
    variable_value_text, variable_value_type, views_of_refs, FieldMetadata,
};
use crate::generator::rust::codecs::composite_type::{shape_of, value_shape, ValueShape};
use crate::generator::rust::codecs::group_type::{find_valid_value, find_value};
use crate::models::message::MessageType;
use crate::models::types::composite_type::{CompositeType, CompositeTypeView};
use crate::models::types::field_type::{FieldType, FieldTypeView};
use crate::models::types::group_type::{GroupType, GroupTypeView};
use crate::models::types::primitive_type::{resolved_kind, ResolvableType};
use crate::models::types::variable_data_type::{VariableDataType, VariableDataTypeView};
use crate::models::types::{lemma_type_views, type_views, Presence, Type, TypeView};
use crate::models::{TypeMap, TypeMapView};
use crate::naming::{camel_name, case_converted, constant_name, snake_name, NameCase};
use crate::text::{last_segment, opt_text, quoted, quoted_text, tail_after_last};
use vstd::prelude::*;
use vstd::string::*;

verus! {

/// How a value moves between a data class and a codec.
#[derive(PartialEq, Eq, Structural, Debug, Copy, Clone)]
pub enum FieldAccess {
    /// An encoded value: an array or a text is lent to the encoder, a single primitive is
    /// converted.
    Value { by_ref: bool },
    /// A bit-set: converted both ways.
    BitSet,
    /// An enum: converted on the way in; the way out may fail, on `NullVal`.
    Enum,
    /// A nested composite: through its own data class, inside a scoped accessor.
    Composite,
}

/// Whether a variable-length attribute is a text, a run of bytes or a list.
#[derive(PartialEq, Eq, Structural, Debug, Copy, Clone)]
pub enum VarDataRepr {
    Text,
    Bytes,
    List,
}

/// What the getter of a constant returns.
#[derive(Debug)]
pub enum ConstantGetter {
    /// A literal of the schema.
    Literal { value_type: String, value: String },
    /// A value of an enum.
    EnumValue { named_type: String, variant: String },
}

/// The mathematical content of a [`ConstantGetter`].
pub enum ConstantGetterView {
    Literal { value_type: Seq<char>, value: Seq<char> },
    EnumValue { named_type: Seq<char>, variant: Seq<char> },
}

impl View for ConstantGetter {
    type V = ConstantGetterView;

    open spec fn view(&self) -> ConstantGetterView {
        match *self {
            ConstantGetter::Literal { value_type, value } => ConstantGetterView::Literal {
                value_type: value_type@,
                value: value@,
            },
            ConstantGetter::EnumValue { named_type, variant } => ConstantGetterView::EnumValue {
                named_type: named_type@,
                variant: variant@,
            },
        }
    }
}

/// The content of an optional getter.
pub open spec fn constant_view(c: Option<ConstantGetter>) -> Option<ConstantGetterView> {
    match c {
        Some(g) => Some(g@),
        None => None,
    }
}

/// One field of a data class of the scripting layer.
#[derive(Debug)]
pub struct DataField {
    /// The name of the attribute.
    pub name: String,
    /// Whether the field is on the wire, may be absent, or is fixed.
    pub presence: Presence,
    /// The type of the attribute; a constant has none, it is a getter.
    pub rust_type: Option<String>,
    /// How the value moves between the data class and the codec; none where nothing moves.
    pub access: Option<FieldAccess>,
    /// Whether the attribute takes part in the hash.
    pub hashable: bool,
    /// What the getter of a constant returns.
    pub constant: Option<ConstantGetter>,
}

/// The mathematical content of a [`DataField`].
pub struct DataFieldView {
    pub name: Seq<char>,
    pub presence: Presence,
    pub rust_type: Option<Seq<char>>,
    pub access: Option<FieldAccess>,
    pub hashable: bool,
    pub constant: Option<ConstantGetterView>,
}

impl View for DataField {
    type V = DataFieldView;

    open spec fn view(&self) -> DataFieldView {
        DataFieldView {
            name: self.name@,
            presence: self.presence,
            rust_type: opt_text(self.rust_type),
            access: self.access,
            hashable: self.hashable,
            constant: constant_view(self.constant),
        }
    }
}

/// A group as an attribute of a data class: a list of entries.
#[derive(Debug)]
pub struct DataGroup {
    /// The name of the attribute.
    pub name: String,
    /// The name of the data class of one entry.
    pub class_name: String,
}

/// The mathematical content of a [`DataGroup`].
pub struct DataGroupView {
    pub name: Seq<char>,
    pub class_name: Seq<char>,
}

impl View for DataGroup {
    type V = DataGroupView;

    open spec fn view(&self) -> DataGroupView {
        DataGroupView {
            name: self.name@,
            class_name: self.class_name@,
        }
    }
}

/// A variable-length field as an attribute of a data class.
#[derive(Debug)]
pub struct DataVarField {
    /// The name of the attribute.
    pub name: String,
    /// Whether the attribute is a text, a run of bytes or a list.
    pub repr: VarDataRepr,
    /// The primitive of one element.
    pub element_type: String,
    /// Whether a getter hands out the bytes without copying them into a list.
    pub bytes_getter: bool,
}

/// The mathematical content of a [`DataVarField`].
pub struct DataVarFieldView {
    pub name: Seq<char>,
    pub repr: VarDataRepr,
    pub element_type: Seq<char>,
    pub bytes_getter: bool,
}

impl View for DataVarField {
    type V = DataVarFieldView;

    open spec fn view(&self) -> DataVarFieldView {
        DataVarFieldView {
            name: self.name@,
            repr: self.repr,
            element_type: self.element_type@,
            bytes_getter: self.bytes_getter,
        }
    }
}

/// All that a data class of the scripting layer is made of.
#[derive(Debug)]
pub struct DataClassPlan {
    /// The name of the class.
    pub name: String,
    /// The name of the module that holds the class.
    pub module_name: String,
    /// The name under which the decoder is imported.
    pub rust_decoder: String,
    /// The name under which the encoder is imported.
    pub rust_encoder: String,
    /// For a message, the name of the constant that holds the template id.
    pub id_constant: Option<String>,
    /// The fields, in declared order.
    pub fields: Vec<DataField>,
    /// The indices of the required fields: they come first in the constructor.
    pub required: Vec<usize>,
    /// The indices of the optional fields: they come last in the constructor.
    pub optional: Vec<usize>,
    /// The groups, in declared order.
    pub groups: Vec<DataGroup>,
    /// The variable-length fields, in declared order.
    pub var_data: Vec<DataVarField>,
}

/// The mathematical content of a [`DataClassPlan`].
pub struct DataClassPlanView {
    pub name: Seq<char>,
    pub module_name: Seq<char>,
    pub rust_decoder: Seq<char>,
    pub rust_encoder: Seq<char>,
    pub id_constant: Option<Seq<char>>,
    pub fields: Seq<DataFieldView>,
    pub required: Seq<usize>,
    pub optional: Seq<usize>,
    pub groups: Seq<DataGroupView>,
    pub var_data: Seq<DataVarFieldView>,
}

impl View for DataClassPlan {
    type V = DataClassPlanView;

    open spec fn view(&self) -> DataClassPlanView {
        DataClassPlanView {
            name: self.name@,
            module_name: self.module_name@,
            rust_decoder: self.rust_decoder@,
            rust_encoder: self.rust_encoder@,
            id_constant: opt_text(self.id_constant),
            fields: views_of(self.fields@),
            required: self.required@,
            optional: self.optional@,
            groups: views_of(self.groups@),
            var_data: views_of(self.var_data@),
        }
    }
}

/// The indices among the first `n` fields whose presence is `wanted`, in ascending order.
pub open spec fn indices_with(fields: Seq<DataFieldView>, wanted: Presence, n: nat) -> Seq<usize>
    decreases n,
{
    if n == 0 || n > fields.len() {
        Seq::empty()
    } else if fields[n - 1].presence == wanted {
        indices_with(fields, wanted, (n - 1) as nat).push((n - 1) as usize)
    } else {
        indices_with(fields, wanted, (n - 1) as nat)
    }
}

/// The name under which the scripting layer imports a codec.
pub open spec fn wrapped_codec_name(class_name: Seq<char>, side: Seq<char>) -> Seq<char> {
    "Rust"@ + class_name + side
}

/// A group as an attribute.
pub open spec fn data_group(g: GroupTypeView) -> DataGroupView {
    DataGroupView {
        name: case_converted(g.name, NameCase::Snake),
        class_name: case_converted(g.name, NameCase::UpperCamel),
    }
}

impl TypeMapView {
    /// The type of an attribute whose schema type is at hand.
    pub open spec fn direct_rust_type_name(self, t: TypeView) -> Result<Seq<char>, Fault> {
        match t {
            TypeView::EncodedData(e) => match self.field_metadata(e.name, e) {
                Err(f) => Err(f),
                Ok(m) => {
                    let value = variable_value_text(
                        m.field_primitive_type,
                        m.lang_type,
                        m.field_length,
                    );
                    Ok(
                        if e.presence == Presence::Optional {
                            "Option<"@ + value + ">"@
                        } else {
                            value
                        },
                    )
                },
            },
            TypeView::BitSet(s) => Ok(case_converted(s.name, NameCase::UpperCamel)),
            TypeView::Enum(e) => Ok(case_converted(e.name, NameCase::UpperCamel)),
            TypeView::Composite(c) => Ok(case_converted(c.name, NameCase::UpperCamel)),
            TypeView::Reference(r) => Err(Fault::UnknownType(r.type_ref)),
        }
    }

    /// The type of an attribute.  A reference has the type of what it names.
    pub open spec fn rust_type_name(self, t: TypeView) -> Result<Seq<char>, Fault> {
        match t {
            TypeView::Reference(r) => match self.find(r.type_ref) {
                Some(found) => self.direct_rust_type_name(found),
                None => Err(Fault::UnknownType(r.type_ref)),
            },
            _ => self.direct_rust_type_name(t),
        }
    }

    /// How a value of a type at hand moves between data class and codec.
    pub open spec fn direct_field_access(self, t: TypeView) -> Result<FieldAccess, Fault> {
        match t {
            TypeView::EncodedData(e) => match self.field_metadata(Seq::empty(), e) {
                Err(f) => Err(f),
                Ok(m) => Ok(FieldAccess::Value { by_ref: m.field_length > 1 }),
            },
            TypeView::BitSet(_) => Ok(FieldAccess::BitSet),
            TypeView::Enum(_) => Ok(FieldAccess::Enum),
            TypeView::Composite(_) => Ok(FieldAccess::Composite),
            TypeView::Reference(r) => Err(Fault::UnknownType(r.type_ref)),
        }
    }

    /// How a value moves between data class and codec.
    pub open spec fn field_access(self, t: TypeView) -> Result<FieldAccess, Fault> {
        match t {
            TypeView::Reference(r) => match self.find(r.type_ref) {
                Some(found) => self.direct_field_access(found),
                None => Err(Fault::UnknownType(r.type_ref)),
            },
            _ => self.direct_field_access(t),
        }
    }

    /// Whether an attribute of this type takes part in the hash: every type does, but an
    /// encoded type whose primitive cannot be resolved or is a floating-point kind.
    pub open spec fn hashable_type(self, t: TypeView) -> bool {
        match t {
            TypeView::EncodedData(e) => resolved_kind(
                self.encoded_types,
                e.primitive_type,
                self.encoded_types.len(),
            ) matches Ok(k) && k.hashable(),
            _ => true,
        }
    }

    /// The getter for a constant sub-field of a composite: a character constant is
    /// handed out as an owned text.
    pub open spec fn literal_getter(self, field_name: Seq<char>, t: TypeView) -> Result<
        ConstantGetterView,
        Fault,
    > {
        match t {
            TypeView::EncodedData(e) => match self.field_metadata(field_name, e) {
                Err(f) => Err(f),
                Ok(m) => match e.default_value {
                    None => Err(Fault::ConstantWithoutValue(m.field_name)),
                    Some(value) => Ok(
                        ConstantGetterView::Literal {
                            value_type: if shape_of(m.field_primitive_type, m.field_length)
                                is Text {
                                "String"@
                            } else {
                                m.lang_type
                            },
                            value: if m.field_primitive_type is Char {
                                quoted_text(value) + ".to_owned()"@
                            } else {
                                value
                            },
                        },
                    ),
                },
            },
            _ => Err(Fault::ConstantNotEncoded(field_name)),
        }
    }

    /// The getter for a field that is fixed to a value of an enum.  The value is named
    /// by the last dotted segment of the field's value reference.
    pub open spec fn enum_getter(self, f: FieldTypeView) -> Result<ConstantGetterView, Fault> {
        match f.resolved_type(self) {
            TypeView::Enum(e) => match f.value_ref {
                None => Err(Fault::ConstantWithoutRef(f.name)),
                Some(reference) => match find_value(e.values, last_segment(reference, '.')) {
                    None => Err(
                        Fault::ConstantUnknownValue {
                            field: f.name,
                            value: last_segment(reference, '.'),
                        },
                    ),
                    Some(v) => Ok(
                        ConstantGetterView::EnumValue {
                            named_type: case_converted(e.name, NameCase::UpperCamel),
                            variant: v.name,
                        },
                    ),
                },
            },
            _ => Err(Fault::ConstantNotEnum(f.name)),
        }
    }

    /// A sub-field of a composite as an attribute of its data class.
    pub open spec fn composite_data_field(self, t: TypeView) -> Result<DataFieldView, Fault> {
        match self.presence_of(t) {
            Err(f) => Err(f),
            Ok(presence) => if presence == Presence::Constant {
                match self.literal_getter(t.name(), t) {
                    Err(f) => Err(f),
                    Ok(getter) => Ok(
                        DataFieldView {
                            name: case_converted(t.name(), NameCase::Snake),
                            presence,
                            rust_type: None,
                            access: None,
                            hashable: false,
                            constant: Some(getter),
                        },
                    ),
                }
            } else {
                match self.rust_type_name(t) {
                    Err(f) => Err(f),
                    Ok(rust_type) => match self.field_access(t) {
                        Err(f) => Err(f),
                        Ok(access) => Ok(
                            DataFieldView {
                                name: case_converted(t.name(), NameCase::Snake),
                                presence,
                                rust_type: Some(rust_type),
                                access: Some(access),
                                hashable: self.hashable_type(t),
                                constant: None,
                            },
                        ),
                    },
                }
            },
        }
    }

    /// A field of a message or group as an attribute of its data class.
    pub open spec fn message_data_field(self, f: FieldTypeView) -> Result<DataFieldView, Fault> {
        if f.presence == Presence::Constant {
            match self.enum_getter(f) {
                Err(e) => Err(e),
                Ok(getter) => Ok(
                    DataFieldView {
                        name: case_converted(f.name, NameCase::Snake),
                        presence: f.presence,
                        rust_type: None,
                        access: None,
                        hashable: false,
                        constant: Some(getter),
                    },
                ),
            }
        } else {
            let t = f.resolved_type(self);
            match self.rust_type_name(t) {
                Err(e) => Err(e),
                Ok(rust_type) => match self.presence_of(t) {
                    Err(e) => Err(e),
                    Ok(of_type) => match self.field_access(t) {
                        Err(e) if of_type != Presence::Constant => Err(e),
                        access => Ok(
                            DataFieldView {
                                name: case_converted(f.name, NameCase::Snake),
                                presence: f.presence,
                                rust_type: Some(rust_type),
                                access: if of_type == Presence::Constant {
                                    None
                                } else {
                                    Some(access->Ok_0)
                                },
                                hashable: self.hashable_type(t),
                                constant: None,
                            },
                        ),
                    },
                },
            }
        }
    }

    /// A variable-length field as an attribute of a data class.
    pub open spec fn data_var_field(self, v: VariableDataTypeView) -> Result<DataVarFieldView, Fault> {
        match v.value_type(self.composite_types) {
            Err(f) => Err(f),
            Ok(value_type) => match resolved_kind(
                self.encoded_types,
                value_type.primitive_type,
                self.encoded_types.len(),
            ) {
                Err(f) => Err(f),
                Ok(kind) => Ok(
                    DataVarFieldView {
                        name: case_converted(v.name, NameCase::Snake),
                        repr: if kind is Char {
                            VarDataRepr::Text
                        } else if kind is UInt8 {
                            VarDataRepr::Bytes
                        } else {
                            VarDataRepr::List
                        },
                        element_type: kind.rust_name(),
                        bytes_getter: kind is UInt8,
                    },
                ),
            },
        }
    }

    /// The attributes for the sub-fields of a composite, or why one has none.
    pub open spec fn composite_data_fields(self, fields: Seq<TypeView>) -> Seq<
        Result<DataFieldView, Fault>,
    > {
        Seq::new(fields.len(), |i: int| self.composite_data_field(fields[i]))
    }

    /// The attributes for the fields of a message or group, or why one has none.
    pub open spec fn message_data_fields(self, fields: Seq<FieldTypeView>) -> Seq<
        Result<DataFieldView, Fault>,
    > {
        Seq::new(fields.len(), |i: int| self.message_data_field(fields[i]))
    }

    /// The attributes for the variable-length fields, or why one has none.
    pub open spec fn data_var_fields(self, fields: Seq<VariableDataTypeView>) -> Seq<
        Result<DataVarFieldView, Fault>,
    > {
        Seq::new(fields.len(), |i: int| self.data_var_field(fields[i]))
    }

    /// The data class of a composite.
    #[verifier::opaque]
    pub open spec fn composite_class(self, c: CompositeTypeView) -> Result<
        DataClassPlanView,
        Fault,
    > {
        match gathered(self.composite_data_fields(c.fields), c.fields.len()) {
            Err(f) => Err(f),
            Ok(fields) => Ok(
                DataClassPlanView {
                    name: case_converted(c.name, NameCase::UpperCamel),
                    module_name: case_converted(
                        case_converted(c.name, NameCase::UpperCamel),
                        NameCase::Snake,
                    ),
                    rust_decoder: wrapped_codec_name(
                        case_converted(c.name, NameCase::UpperCamel),
                        "Decoder"@,
                    ),
                    rust_encoder: wrapped_codec_name(
                        case_converted(c.name, NameCase::UpperCamel),
                        "Encoder"@,
                    ),
                    id_constant: None,
                    fields,
                    required: indices_with(fields, Presence::Required, fields.len()),
                    optional: indices_with(fields, Presence::Optional, fields.len()),
                    groups: Seq::empty(),
                    var_data: Seq::empty(),
                },
            ),
        }
    }

    /// The data class of a group or message: the plain fields, then the groups, then the
    /// variable-length fields.
    #[verifier::opaque]
    pub open spec fn block_class(
        self,
        name: Seq<char>,
        children: Seq<crate::models::types::MessageFieldView>,
        is_message: bool,
    ) -> Result<DataClassPlanView, Fault> {
        match gathered(
            self.message_data_fields(plain_fields(children)),
            plain_fields(children).len(),
        ) {
            Err(f) => Err(f),
            Ok(fields) => match gathered(
                self.data_var_fields(var_data_fields(children)),
                var_data_fields(children).len(),
            ) {
                Err(f) => Err(f),
                Ok(var_data) => Ok(
                    DataClassPlanView {
                        name: case_converted(name, NameCase::UpperCamel),
                        module_name: case_converted(
                            case_converted(name, NameCase::UpperCamel),
                            NameCase::Snake,
                        ),
                        rust_decoder: wrapped_codec_name(
                            case_converted(name, NameCase::UpperCamel),
                            "Decoder"@,
                        ),
                        rust_encoder: wrapped_codec_name(
                            case_converted(name, NameCase::UpperCamel),
                            "Encoder"@,
                        ),
                        id_constant: if is_message {
                            Some(
                                case_converted(
                                    case_converted(name, NameCase::UpperCamel),
                                    NameCase::ScreamingSnake,
                                ) + "_ID"@,
                            )
                        } else {
                            None
                        },
                        fields,
                        required: indices_with(fields, Presence::Required, fields.len()),
                        optional: indices_with(fields, Presence::Optional, fields.len()),
                        groups: group_fields(children).map_values(|g: GroupTypeView| data_group(g)),
                        var_data,
                    },
                ),
            },
        }
    }
}

/// The type of an attribute.
pub fn get_type_name(field_type: &Type, types: &TypeMap) -> (r: Result<String, SchemaError>)
    ensures
        crate::error::text_outcome(r) == types@.rust_type_name(field_type@),
{
    match field_type {
        Type::Reference(t) => match types.find_type(t.type_ref.as_str()) {
            Some(referenced_type) => direct_type_name(&referenced_type, types),
            None => Err(SchemaError::UnknownType(t.type_ref.clone())),
        },
        _ => direct_type_name(field_type, types),
    }
}

fn direct_type_name(field_type: &Type, types: &TypeMap) -> (r: Result<String, SchemaError>)
    ensures
        crate::error::text_outcome(r) == types@.direct_rust_type_name(field_type@),
{
    match field_type {
        Type::EncodedData(t) => {
            let metadata = match FieldMetadata::from(field_type.name(), t, types) {
                Ok(m) => m,
                Err(e) => { return Err(e); },
            };
            let value_type = variable_value_type(
                &metadata.field_primitive_type,
                metadata.lang_type.name,
                metadata.field_length,
            );
            match t.presence {
                Presence::Optional => Ok(
                    String::from_str("Option<").concat(value_type.as_str()).concat(">"),
                ),
                _ => Ok(value_type),
            }
        },
        Type::BitSet(t) => Ok(camel_name(t.name.as_str())),
        Type::Enum(t) => Ok(camel_name(t.name.as_str())),
        Type::Composite(t) => Ok(camel_name(t.name.as_str())),
        Type::Reference(t) => Err(SchemaError::UnknownType(t.type_ref.clone())),
    }
}

/// How a value moves between data class and codec.
pub fn field_access_of(field_type: &Type, types: &TypeMap) -> (r: Result<FieldAccess, SchemaError>)
    ensures
        match r {
            Ok(a) => types@.field_access(field_type@) == Ok::<FieldAccess, Fault>(a),
            Err(e) => types@.field_access(field_type@) == Err::<FieldAccess, Fault>(e@),
        },
{
    match field_type {
        Type::Reference(t) => match types.find_type(t.type_ref.as_str()) {
            Some(referenced_type) => direct_access_of(&referenced_type, types),
            None => Err(SchemaError::UnknownType(t.type_ref.clone())),
        },
        _ => direct_access_of(field_type, types),
    }
}

fn direct_access_of(field_type: &Type, types: &TypeMap) -> (r: Result<FieldAccess, SchemaError>)
    ensures
        match r {
            Ok(a) => types@.direct_field_access(field_type@) == Ok::<FieldAccess, Fault>(a),
            Err(e) => types@.direct_field_access(field_type@) == Err::<FieldAccess, Fault>(e@),
        },
{
    match field_type {
        Type::EncodedData(t) => {
            proof {
                reveal_strlit("");
                assert(""@ =~= Seq::<char>::empty());
            }
            match FieldMetadata::from("", t, types) {
                Ok(metadata) => Ok(FieldAccess::Value { by_ref: metadata.field_length > 1 }),
                Err(e) => Err(e),
            }
        },
        Type::BitSet(_) => Ok(FieldAccess::BitSet),
        Type::Enum(_) => Ok(FieldAccess::Enum),
        Type::Composite(_) => Ok(FieldAccess::Composite),
        Type::Reference(t) => Err(SchemaError::UnknownType(t.type_ref.clone())),
    }
}

/// Whether an attribute of this type takes part in the hash.
pub fn is_hashable_type(field_type: &Type, types: &TypeMap) -> (r: bool)
    ensures
        r == types@.hashable_type(field_type@),
{
    match field_type {
        Type::EncodedData(encoded) => match encoded.is_hashable(&types.encoded_types) {
            Ok(b) => b,
            Err(_) => false,
        },
        _ => true,
    }
}

/// The getter for a constant sub-field of a composite.
pub fn generate_constant_field(field_name: &str, field_type: &Type, types: &TypeMap) -> (r: Result<
    ConstantGetter,
    SchemaError,
>)
    ensures
        match r {
            Ok(g) => types@.literal_getter(field_name@, field_type@) == Ok::<
                ConstantGetterView,
                Fault,
            >(g@),
            Err(e) => types@.literal_getter(field_name@, field_type@) == Err::<
                ConstantGetterView,
                Fault,
            >(e@),
        },
{
    let encoded_type = match field_type {
        Type::EncodedData(encoded_type) => encoded_type,
        _ => { return Err(SchemaError::ConstantNotEncoded(String::from_str(field_name))); },
    };
    let metadata = match FieldMetadata::from(field_name, encoded_type, types) {
        Ok(m) => m,
        Err(e) => { return Err(e); },
    };
    let value = match &encoded_type.default_value {
        Some(v) => v,
        None => { return Err(SchemaError::ConstantWithoutValue(metadata.field_name)); },
    };
    let value_type = match value_shape(&metadata.field_primitive_type, metadata.field_length) {
        ValueShape::Text => String::from_str("String"),
        _ => String::from_str(metadata.lang_type.name),
    };
    let value = match metadata.field_primitive_type {
        crate::models::types::primitive_type::NativeType::Char => quoted(value.as_str()).concat(
            ".to_owned()",
        ),
        _ => value.clone(),
    };
    Ok(ConstantGetter::Literal { value_type, value })
}

/// The getter for a field that is fixed to a value of an enum.
pub fn field_constant_enum(field: &FieldType, types: &TypeMap) -> (r: Result<
    ConstantGetter,
    SchemaError,
>)
    ensures
        match r {
            Ok(g) => types@.enum_getter(field@) == Ok::<ConstantGetterView, Fault>(g@),
            Err(e) => types@.enum_getter(field@) == Err::<ConstantGetterView, Fault>(e@),
        },
{
    let repr_type = match field.to_type(types) {
        Ok(t) => t,
        Err(e) => { return Err(e); },
    };
    let enum_type = match &repr_type {
        Type::Enum(enum_type) => enum_type,
        _ => { return Err(SchemaError::ConstantNotEnum(field.name.clone())); },
    };
    let named_type = camel_name(enum_type.name.as_str());
    let reference = match &field.value_ref {
        Some(r) => r,
        None => { return Err(SchemaError::ConstantWithoutRef(field.name.clone())); },
    };
    let wanted = tail_after_last(reference.as_str(), '.');
    let value = match find_valid_value(&enum_type.values, wanted.as_str()) {
        Some(v) => v,
        None => {
            return Err(
                SchemaError::ConstantUnknownValue { field: field.name.clone(), value: wanted },
            );
        },
    };
    Ok(ConstantGetter::EnumValue { named_type, variant: value.name.clone() })
}

/// A sub-field of a composite as an attribute of its data class.
pub fn generate_composite_field(field_type: &Type, types: &TypeMap) -> (r: Result<
    DataField,
    SchemaError,
>)
    ensures
        match r {
            Ok(d) => types@.composite_data_field(field_type@) == Ok::<DataFieldView, Fault>(d@),
            Err(e) => types@.composite_data_field(field_type@) == Err::<DataFieldView, Fault>(e@),
        },
{
    let presence = match field_type.presence(types) {
        Ok(p) => p,
        Err(e) => { return Err(e); },
    };
    let name = snake_name(field_type.name());
    match presence {
        Presence::Constant => {
            let getter = match generate_constant_field(field_type.name(), field_type, types) {
                Ok(g) => g,
                Err(e) => { return Err(e); },
            };
            Ok(
                DataField {
                    name,
                    presence,
                    rust_type: None,
                    access: None,
                    hashable: false,
                    constant: Some(getter),
                },
            )
        },
        _ => {
            let rust_type = match get_type_name(field_type, types) {
                Ok(t) => t,
                Err(e) => { return Err(e); },
            };
            let access = match field_access_of(field_type, types) {
                Ok(a) => a,
                Err(e) => { return Err(e); },
            };
            Ok(
                DataField {
                    name,
                    presence,
                    rust_type: Some(rust_type),
                    access: Some(access),
                    hashable: is_hashable_type(field_type, types),
                    constant: None,
                },
            )
        },
    }
}

/// A field of a message or group as an attribute of its data class.
pub fn field_struct(field: &FieldType, types: &TypeMap) -> (r: Result<DataField, SchemaError>)
    ensures
        match r {
            Ok(d) => types@.message_data_field(field@) == Ok::<DataFieldView, Fault>(d@),
            Err(e) => types@.message_data_field(field@) == Err::<DataFieldView, Fault>(e@),
        },
{
    let name = snake_name(field.name.as_str());
    match field.presence {
        Presence::Constant => {
            let getter = match field_constant_enum(field, types) {
                Ok(g) => g,
                Err(e) => { return Err(e); },
            };
            Ok(
                DataField {
                    name,
                    presence: field.presence,
                    rust_type: None,
                    access: None,
                    hashable: false,
                    constant: Some(getter),
                },
            )
        },
        _ => {
            let field_type = match field.to_type(types) {
                Ok(t) => t,
                Err(e) => { return Err(e); },
            };
            let rust_type = match get_type_name(&field_type, types) {
                Ok(t) => t,
                Err(e) => { return Err(e); },
            };
            let of_type = match field_type.presence(types) {
                Ok(p) => p,
                Err(e) => { return Err(e); },
            };
            let access = match of_type {
                Presence::Constant => None,
                _ => match field_access_of(&field_type, types) {
                    Ok(a) => Some(a),
                    Err(e) => { return Err(e); },
                },
            };
            Ok(
                DataField {
                    name,
                    presence: field.presence,
                    rust_type: Some(rust_type),
                    access,
                    hashable: is_hashable_type(&field_type, types),
                    constant: None,
                },
            )
        },
    }
}

/// A group as an attribute.
pub fn group_struct(group: &GroupType) -> (r: DataGroup)
    ensures
        r@ == data_group(group@),
{
    DataGroup { name: snake_name(group.name.as_str()), class_name: camel_name(group.name.as_str()) }
}

/// A variable-length field as an attribute.
pub fn var_data_field_struct(var_data_field: &VariableDataType, types: &TypeMap) -> (r: Result<
    DataVarField,
    SchemaError,
>)
    ensures
        match r {
            Ok(d) => types@.data_var_field(var_data_field@) == Ok::<DataVarFieldView, Fault>(d@),
            Err(e) => types@.data_var_field(var_data_field@) == Err::<DataVarFieldView, Fault>(e@),
        },
{
    let name = snake_name(var_data_field.name.as_str());
    let value_type = match var_data_field.value_type(&types.composite_types) {
        Ok(v) => v,
        Err(e) => { return Err(e); },
    };
    let kind = match value_type.primitive_type.resolved(&types.encoded_types) {
        Ok(k) => k,
        Err(e) => { return Err(e); },
    };
    let (repr, bytes_getter) = match kind {
        crate::models::types::primitive_type::NativeType::Char => (VarDataRepr::Text, false),
        crate::models::types::primitive_type::NativeType::UInt8 => (VarDataRepr::Bytes, true),
        _ => (VarDataRepr::List, false),
    };
    Ok(
        DataVarField {
            name,
            repr,
            element_type: String::from_str(kind.rust_primitive().name),
            bytes_getter,
        },
    )
}

/// The indices of the fields whose presence is `wanted`.
pub fn fields_with(fields: &Vec<DataField>, wanted: Presence) -> (r: Vec<usize>)
    ensures
        r@ == indices_with(views_of(fields@), wanted, fields@.len()),
{
    let ghost views = views_of(fields@);
    let mut out: Vec<usize> = Vec::new();
    let mut i: usize = 0;
    while i < fields.len()
        invariant
            i <= fields.len(),
            views == views_of(fields@),
            out@ == indices_with(views, wanted, i as nat),
        decreases fields.len() - i,
    {
        assert(views[i as int] == fields@[i as int]@);
        if fields[i].presence == wanted {
            out.push(i);
        }
        i = i + 1;
    }
    out
}

fn composite_fields(fields: &Vec<Type>, types: &TypeMap) -> (r: Result<Vec<DataField>, SchemaError>)
    ensures
        match r {
            Ok(d) => gathered(types@.composite_data_fields(type_views(fields@)), fields@.len())
                == Ok::<Seq<DataFieldView>, Fault>(views_of(d@)),
            Err(e) => gathered(types@.composite_data_fields(type_views(fields@)), fields@.len())
                == Err::<Seq<DataFieldView>, Fault>(e@),
        },
{
    let ghost results = types@.composite_data_fields(type_views(fields@));
    proof {
        lemma_type_views(fields@);
    }
    let mut out: Vec<DataField> = Vec::new();
    assert(views_of(out@) =~= Seq::<DataFieldView>::empty());
    let mut i: usize = 0;
    while i < fields.len()
        invariant
            i <= fields.len(),
            results == types@.composite_data_fields(type_views(fields@)),
            results.len() == fields.len(),
            forall|j: int|
                0 <= j < fields.len() ==> results[j] == types@.composite_data_field(fields@[j]@),
            gathered(results, i as nat) == Ok::<Seq<DataFieldView>, Fault>(views_of(out@)),
        decreases fields.len() - i,
    {
        let ghost before = views_of(out@);
        proof {
            let next = (i + 1) as nat;
            assert((next - 1) as nat == i as nat);
            assert(gathered(results, next) == match results[i as int] {
                Err(f) => Err(f),
                Ok(p) => Ok(before.push(p)),
            });
        }
        let field = match generate_composite_field(&fields[i], types) {
            Ok(d) => d,
            Err(e) => {
                proof {
                    lemma_gathered_fault(results, i as nat + 1, results.len());
                }
                return Err(e);
            },
        };
        out.push(field);
        assert(views_of(out@) =~= before.push(field@));
        i = i + 1;
    }
    Ok(out)
}

fn message_fields(fields: &Vec<&FieldType>, types: &TypeMap) -> (r: Result<
    Vec<DataField>,
    SchemaError,
>)
    ensures
        match r {
            Ok(d) => gathered(types@.message_data_fields(views_of_refs(fields@)), fields@.len())
                == Ok::<Seq<DataFieldView>, Fault>(views_of(d@)),
            Err(e) => gathered(types@.message_data_fields(views_of_refs(fields@)), fields@.len())
                == Err::<Seq<DataFieldView>, Fault>(e@),
        },
{
    let ghost results = types@.message_data_fields(views_of_refs(fields@));
    let mut out: Vec<DataField> = Vec::new();
    assert(views_of(out@) =~= Seq::<DataFieldView>::empty());
    let mut i: usize = 0;
    while i < fields.len()
        invariant
            i <= fields.len(),
            results == types@.message_data_fields(views_of_refs(fields@)),
            results.len() == fields.len(),
            forall|j: int|
                0 <= j < fields.len() ==> results[j] == types@.message_data_field(fields@[j]@),
            gathered(results, i as nat) == Ok::<Seq<DataFieldView>, Fault>(views_of(out@)),
        decreases fields.len() - i,
    {
        let ghost before = views_of(out@);
        proof {
            let next = (i + 1) as nat;
            assert((next - 1) as nat == i as nat);
            assert(gathered(results, next) == match results[i as int] {
                Err(f) => Err(f),
                Ok(p) => Ok(before.push(p)),
            });
        }
        let field = match field_struct(fields[i], types) {
            Ok(d) => d,
            Err(e) => {
                proof {
                    lemma_gathered_fault(results, i as nat + 1, results.len());
                }
                return Err(e);
            },
        };
        out.push(field);
        assert(views_of(out@) =~= before.push(field@));
        i = i + 1;
    }
    Ok(out)
}

fn var_fields(fields: &Vec<&VariableDataType>, types: &TypeMap) -> (r: Result<
    Vec<DataVarField>,
    SchemaError,
>)
    ensures
        match r {
            Ok(d) => gathered(types@.data_var_fields(views_of_refs(fields@)), fields@.len())
                == Ok::<Seq<DataVarFieldView>, Fault>(views_of(d@)),
            Err(e) => gathered(types@.data_var_fields(views_of_refs(fields@)), fields@.len())
                == Err::<Seq<DataVarFieldView>, Fault>(e@),
        },
{
    let ghost results = types@.data_var_fields(views_of_refs(fields@));
    let mut out: Vec<DataVarField> = Vec::new();
    assert(views_of(out@) =~= Seq::<DataVarFieldView>::empty());
    let mut i: usize = 0;
    while i < fields.len()
        invariant
            i <= fields.len(),
            results == types@.data_var_fields(views_of_refs(fields@)),
            results.len() == fields.len(),
            forall|j: int| 0 <= j < fields.len() ==> results[j] == types@.data_var_field(fields@[j]@),
            gathered(results, i as nat) == Ok::<Seq<DataVarFieldView>, Fault>(views_of(out@)),
        decreases fields.len() - i,
    {
        let ghost before = views_of(out@);
        proof {
            let next = (i + 1) as nat;
            assert((next - 1) as nat == i as nat);
            assert(gathered(results, next) == match results[i as int] {
                Err(f) => Err(f),
                Ok(p) => Ok(before.push(p)),
            });
        }
        let field = match var_data_field_struct(fields[i], types) {
            Ok(d) => d,
            Err(e) => {
                proof {
                    lemma_gathered_fault(results, i as nat + 1, results.len());
                }
                return Err(e);
            },
        };
        out.push(field);
        assert(views_of(out@) =~= before.push(field@));
        i = i + 1;
    }
    Ok(out)
}

fn group_structs(groups: &Vec<&GroupType>) -> (r: Vec<DataGroup>)
    ensures
        views_of(r@) == views_of_refs(groups@).map_values(|g: GroupTypeView| data_group(g)),
{
    let mut out: Vec<DataGroup> = Vec::new();
    let mut i: usize = 0;
    while i < groups.len()
        invariant
            i <= groups.len(),
            out@.len() == i,
            forall|j: int| 0 <= j < i ==> (#[trigger] out@[j])@ == data_group(groups@[j]@),
        decreases groups.len() - i,
    {
        out.push(group_struct(groups[i]));
        i = i + 1;
    }
    assert(views_of(out@) =~= views_of_refs(groups@).map_values(|g: GroupTypeView| data_group(g)));
    out
}

/// The data class of a composite.
pub fn composite_data_class(composite_type: &CompositeType, types: &TypeMap) -> (r: Result<
    DataClassPlan,
    SchemaError,
>)
    ensures
        match r {
            Ok(p) => types@.composite_class(composite_type@) == Ok::<DataClassPlanView, Fault>(p@),
            Err(e) => types@.composite_class(composite_type@) == Err::<DataClassPlanView, Fault>(
                e@,
            ),
        },
{
    reveal(TypeMapView::composite_class);
    proof {
        lemma_type_views(composite_type.fields@);
    }
    let name = camel_name(composite_type.name.as_str());
    let fields = match composite_fields(&composite_type.fields, types) {
        Ok(f) => f,
        Err(e) => { return Err(e); },
    };
    let required = fields_with(&fields, Presence::Required);
    let optional = fields_with(&fields, Presence::Optional);
    let groups: Vec<DataGroup> = Vec::new();
    let var_data: Vec<DataVarField> = Vec::new();
    assert(views_of(groups@) =~= Seq::<DataGroupView>::empty());
    assert(views_of(var_data@) =~= Seq::<DataVarFieldView>::empty());
    Ok(
        DataClassPlan {
            module_name: snake_name(name.as_str()),
            rust_decoder: String::from_str("Rust").concat(name.as_str()).concat("Decoder"),
            rust_encoder: String::from_str("Rust").concat(name.as_str()).concat("Encoder"),
            name,
            id_constant: None,
            fields,
            required,
            optional,
            groups,
            var_data,
        },
    )
}

fn block_data_class(
    declared_name: &str,
    children: &Vec<crate::models::types::MessageField>,
    is_message: bool,
    types: &TypeMap,
) -> (r: Result<DataClassPlan, SchemaError>)
    ensures
        match r {
            Ok(p) => types@.block_class(
                declared_name@,
                crate::models::types::message_field_views(children@),
                is_message,
            ) == Ok::<DataClassPlanView, Fault>(p@),
            Err(e) => types@.block_class(
                declared_name@,
                crate::models::types::message_field_views(children@),
                is_message,
            ) == Err::<DataClassPlanView, Fault>(e@),
        },
{
    reveal(TypeMapView::block_class);
    let name = camel_name(declared_name);
    let (plain, groups, var_data) = field_groups(children.as_slice());
    let fields = match message_fields(&plain, types) {
        Ok(f) => f,
        Err(e) => { return Err(e); },
    };
    let var_data = match var_fields(&var_data, types) {
        Ok(f) => f,
        Err(e) => { return Err(e); },
    };
    let required = fields_with(&fields, Presence::Required);
    let optional = fields_with(&fields, Presence::Optional);
    let id_constant = if is_message {
        Some(constant_name(name.as_str()).concat("_ID"))
    } else {
        None
    };
    Ok(
        DataClassPlan {
            module_name: snake_name(name.as_str()),
            rust_decoder: String::from_str("Rust").concat(name.as_str()).concat("Decoder"),
            rust_encoder: String::from_str("Rust").concat(name.as_str()).concat("Encoder"),
            name,
            id_constant,
            fields,
            required,
            optional,
            groups: group_structs(&groups),
            var_data,
        },
    )
}

/// The data class of a group.
pub fn group_data_class(group: &GroupType, types: &TypeMap) -> (r: Result<
    DataClassPlan,
    SchemaError,
>)
    ensures
        match r {
            Ok(p) => types@.block_class(group@.name, group@.fields, false) == Ok::<
                DataClassPlanView,
                Fault,
            >(p@),
            Err(e) => types@.block_class(group@.name, group@.fields, false) == Err::<
                DataClassPlanView,
                Fault,
            >(e@),
        },
{
    block_data_class(group.name.as_str(), &group.fields, false, types)
}

/// The data class of a message.
pub fn message_data_class(message: &MessageType, types: &TypeMap) -> (r: Result<
    DataClassPlan,
    SchemaError,
>)
    ensures
        match r {
            Ok(p) => types@.block_class(message@.name, message@.fields, true) == Ok::<
                DataClassPlanView,
                Fault,
            >(p@),
            Err(e) => types@.block_class(message@.name, message@.fields, true) == Err::<
                DataClassPlanView,
                Fault,
            >(e@),
        },
{
    block_data_class(message.name.as_str(), &message.fields, true, types)
}

} // verus!
