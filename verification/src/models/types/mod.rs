//! The kinds of type a schema can declare, and the fields a message is made of.

pub mod composite_type;
pub mod encoded_data_type;
pub mod enum_type;
pub mod field_type;
pub mod group_type;
pub mod primitive_type;
pub mod reference_type;
pub mod set_type;
pub mod variable_data_type;

use crate::duplicate::Duplicate;
use crate::error::{Fault, SchemaError};
use crate::models::sizing::type_size_within;
use crate::models::{TypeMap, TypeMapView};
use crate::models::types::composite_type::{CompositeType, CompositeTypeView};
use crate::models::types::encoded_data_type::{EncodedDataType, EncodedDataTypeView};
use crate::models::types::enum_type::{EnumType, EnumTypeView};
use crate::models::types::field_type::{FieldType, FieldTypeView};
use crate::models::types::group_type::{GroupType, GroupTypeView};
use crate::models::types::primitive_type::NativeTypeView;
use crate::models::types::reference_type::{ReferenceType, ReferenceTypeView};
use crate::models::types::set_type::{SetType, SetTypeView};
use crate::models::types::variable_data_type::{VariableDataType, VariableDataTypeView};
use crate::text::{copy_text, opt_text, same_text};
use vstd::prelude::*;
use vstd::string::*;

verus! {

/// A declared type.
#[derive(PartialEq, Debug)]
pub enum Type {
    EncodedData(EncodedDataType),
    BitSet(SetType),
    Enum(EnumType),
    Composite(CompositeType),
    Reference(ReferenceType),
}

/// The mathematical content of a [`Type`].
pub enum TypeView {
    EncodedData(EncodedDataTypeView),
    BitSet(SetTypeView),
    Enum(EnumTypeView),
    Composite(CompositeTypeView),
    Reference(ReferenceTypeView),
}

/// The content of a type.  A composite's sub-types are viewed in turn.
pub open spec fn type_view(t: Type) -> TypeView
    decreases t,
{
    match t {
        Type::EncodedData(e) => TypeView::EncodedData(e@),
        Type::BitSet(s) => TypeView::BitSet(s@),
        Type::Enum(e) => TypeView::Enum(e@),
        Type::Composite(c) => TypeView::Composite(composite_view(c)),
        Type::Reference(r) => TypeView::Reference(r@),
    }
}

/// The content of a composite.
pub open spec fn composite_view(c: CompositeType) -> CompositeTypeView
    decreases c,
{
    CompositeTypeView {
        name: c.name@,
        since_version: c.since_version,
        deprecated: c.deprecated,
        semantic_type: opt_text(c.semantic_type),
        description: opt_text(c.description),
        offset: c.offset,
        fields: type_views(c.fields@),
    }
}

/// The contents of a sequence of types, in order.
pub open spec fn type_views(ts: Seq<Type>) -> Seq<TypeView>
    decreases ts,
{
    if ts.len() == 0 {
        Seq::empty()
    } else {
        type_views(ts.drop_last()).push(type_view(ts.last()))
    }
}

impl View for Type {
    type V = TypeView;

    open spec fn view(&self) -> TypeView {
        type_view(*self)
    }
}

/// `type_views` goes item by item.
pub proof fn lemma_type_views(ts: Seq<Type>)
    ensures
        type_views(ts).len() == ts.len(),
        forall|i: int| 0 <= i < ts.len() ==> (#[trigger] type_views(ts)[i]) == ts[i]@,
    decreases ts.len(),
{
    if ts.len() > 0 {
        lemma_type_views(ts.drop_last());
    }
}

impl TypeView {
    /// The primitive that an encoded type, a bit-set or an enum is made of.
    /// A composite and a reference have none: they count as a reference to nothing.
    pub open spec fn primitive(self) -> NativeTypeView {
        match self {
            TypeView::EncodedData(t) => t.primitive_type,
            TypeView::BitSet(t) => t.encoding_type,
            TypeView::Enum(t) => t.encoding_type,
            _ => NativeTypeView::Reference(Seq::empty()),
        }
    }

    /// The declared name.
    pub open spec fn name(self) -> Seq<char> {
        match self {
            TypeView::EncodedData(t) => t.name,
            TypeView::BitSet(t) => t.name,
            TypeView::Enum(t) => t.name,
            TypeView::Composite(t) => t.name,
            TypeView::Reference(t) => t.name,
        }
    }
}

/// Copies a list of types.
pub fn copy_types(v: &Vec<Type>) -> (r: Vec<Type>)
    ensures
        type_views(r@) == type_views(v@),
    decreases v,
{
    let mut out: Vec<Type> = Vec::new();
    let mut i: usize = 0;
    while i < v.len()
        invariant
            i <= v.len(),
            out@.len() == i,
            forall|j: int| 0 <= j < i ==> (#[trigger] out@[j])@ == v@[j]@,
        decreases v.len() - i,
    {
        assert(decreases_to!(v => v[i as int]));
        let c = copy_type(&v[i]);
        out.push(c);
        i = i + 1;
    }
    proof {
        lemma_type_views(out@);
        lemma_type_views(v@);
        assert(type_views(out@) =~= type_views(v@));
    }
    out
}

/// Copies a composite.
pub fn copy_composite(c: &CompositeType) -> (r: CompositeType)
    ensures
        r@ == c@,
    decreases c,
{
    CompositeType {
        name: c.name.clone(),
        since_version: c.since_version,
        deprecated: c.deprecated,
        semantic_type: copy_text(&c.semantic_type),
        description: copy_text(&c.description),
        offset: c.offset,
        fields: copy_types(&c.fields),
    }
}

/// Copies a type.
pub fn copy_type(t: &Type) -> (r: Type)
    ensures
        r@ == t@,
    decreases t,
{
    match t {
        Type::EncodedData(e) => Type::EncodedData(e.duplicate()),
        Type::BitSet(s) => Type::BitSet(s.duplicate()),
        Type::Enum(e) => Type::Enum(e.duplicate()),
        Type::Composite(c) => Type::Composite(copy_composite(c)),
        Type::Reference(r) => Type::Reference(r.duplicate()),
    }
}

impl Clone for Type {
    fn clone(&self) -> (r: Self)
        ensures
            r@ == self@,
    {
        copy_type(self)
    }
}

impl Duplicate for Type {
    fn duplicate(&self) -> (r: Self) {
        copy_type(self)
    }
}

/// A construct that occupies a fixed number of bytes on the wire.
pub trait SizedEncoded {
    /// The size in bytes, or why there is none.
    spec fn encoded_size(&self, types: TypeMapView) -> Result<nat, Fault>;

    fn size(&self, types: &TypeMap) -> (r: Result<usize, SchemaError>)
        ensures
            crate::error::size_outcome(r) == self.encoded_size(types@),
    ;
}

impl SizedEncoded for Type {
    open spec fn encoded_size(&self, types: TypeMapView) -> Result<nat, Fault> {
        types.type_size(self@, types.count())
    }

    fn size(&self, types: &TypeMap) -> (r: Result<usize, SchemaError>) {
        type_size_within(self, types, types.count())
    }
}

impl TypeMapView {
    /// The presence of a type: that of an encoded type is declared; a reference has the
    /// presence of the type that it names; anything else is required.
    pub open spec fn presence_of(self, t: TypeView) -> Result<Presence, Fault> {
        match t {
            TypeView::EncodedData(e) => Ok(e.presence),
            TypeView::Reference(r) => match self.find(r.type_ref) {
                Some(TypeView::EncodedData(e)) => Ok(e.presence),
                Some(_) => Ok(Presence::Required),
                None => Err(Fault::UnknownType(r.type_ref)),
            },
            _ => Ok(Presence::Required),
        }
    }
}

impl Type {
    /// The presence of this type.
    pub fn presence(&self, types: &TypeMap) -> (r: Result<Presence, SchemaError>)
        ensures
            match r {
                Ok(p) => types@.presence_of(self@) == Ok::<Presence, Fault>(p),
                Err(e) => types@.presence_of(self@) == Err::<Presence, Fault>(e@),
            },
    {
        match self {
            Type::EncodedData(encoded_data_type) => Ok(encoded_data_type.presence),
            Type::Reference(reference_type) => {
                match types.find_type(reference_type.type_ref.as_str()) {
                    Some(Type::EncodedData(e)) => Ok(e.presence),
                    Some(_) => Ok(Presence::Required),
                    None => Err(SchemaError::UnknownType(reference_type.type_ref.clone())),
                }
            },
            _ => Ok(Presence::Required),
        }
    }

    /// The declared name.
    pub fn name(&self) -> (r: &str)
        ensures
            r@ == self@.name(),
    {
        match self {
            Type::EncodedData(t) => t.name.as_str(),
            Type::BitSet(t) => t.name.as_str(),
            Type::Enum(t) => t.name.as_str(),
            Type::Composite(t) => t.name.as_str(),
            Type::Reference(t) => t.name.as_str(),
        }
    }
}

/// Whether a field is on the wire, may be absent, or is fixed by the schema.
#[derive(PartialEq, Eq, Structural, Debug, Copy, Clone)]
pub enum Presence {
    Constant,
    Required,
    Optional,
}

impl Default for Presence {
    fn default() -> (r: Self)
        ensures
            r == Presence::Required,
    {
        Presence::Required
    }
}

impl Presence {
    /// What a presence attribute means, if it is one of the three words.
    pub open spec fn of_name(s: Seq<char>) -> Option<Presence> {
        if s == "constant"@ {
            Some(Presence::Constant)
        } else if s == "required"@ {
            Some(Presence::Required)
        } else if s == "optional"@ {
            Some(Presence::Optional)
        } else {
            None
        }
    }

    /// Reads a presence attribute.
    pub fn from_name(s: &str) -> (r: Result<Presence, SchemaError>)
        ensures
            match r {
                Ok(p) => Presence::of_name(s@) == Some(p),
                Err(e) => Presence::of_name(s@) is None && e@ == crate::error::Fault::InvalidPresence(
                    s@,
                ),
            },
    {
        if same_text(s, "constant") {
            Ok(Presence::Constant)
        } else if same_text(s, "required") {
            Ok(Presence::Required)
        } else if same_text(s, "optional") {
            Ok(Presence::Optional)
        } else {
            Err(SchemaError::InvalidPresence(String::from_str(s)))
        }
    }
}

impl std::str::FromStr for Presence {
    type Err = SchemaError;

    fn from_str(s: &str) -> (r: Result<Self, SchemaError>)
        ensures
            match r {
                Ok(p) => Presence::of_name(s@) == Some(p),
                Err(e) => Presence::of_name(s@) is None && e@ == crate::error::Fault::InvalidPresence(
                    s@,
                ),
            },
    {
        Presence::from_name(s)
    }
}

/// How the bytes of a character field are to be read.
#[derive(PartialEq, Eq, Structural, Debug, Copy, Clone)]
pub enum CharacterEncoding {
    Ascii,
    Utf8,
}

impl CharacterEncoding {
    /// What a character-encoding attribute means, if it is one of the two names.
    pub open spec fn of_name(s: Seq<char>) -> Option<CharacterEncoding> {
        if s == "ASCII"@ {
            Some(CharacterEncoding::Ascii)
        } else if s == "UTF-8"@ {
            Some(CharacterEncoding::Utf8)
        } else {
            None
        }
    }

    /// Reads a character-encoding attribute.
    pub fn from_name(s: &str) -> (r: Result<CharacterEncoding, SchemaError>)
        ensures
            match r {
                Ok(c) => CharacterEncoding::of_name(s@) == Some(c),
                Err(e) => CharacterEncoding::of_name(s@) is None && e@
                    == crate::error::Fault::InvalidCharacterEncoding(s@),
            },
    {
        if same_text(s, "ASCII") {
            Ok(CharacterEncoding::Ascii)
        } else if same_text(s, "UTF-8") {
            Ok(CharacterEncoding::Utf8)
        } else {
            Err(SchemaError::InvalidCharacterEncoding(String::from_str(s)))
        }
    }
}

impl std::str::FromStr for CharacterEncoding {
    type Err = SchemaError;

    fn from_str(s: &str) -> (r: Result<Self, SchemaError>)
        ensures
            match r {
                Ok(c) => CharacterEncoding::of_name(s@) == Some(c),
                Err(e) => CharacterEncoding::of_name(s@) is None && e@
                    == crate::error::Fault::InvalidCharacterEncoding(s@),
            },
    {
        CharacterEncoding::from_name(s)
    }
}

/// A child of a message or of a group.
#[derive(PartialEq, Debug)]
pub enum MessageField {
    Field(FieldType),
    Group(GroupType),
    VariableData(VariableDataType),
}

/// The mathematical content of a [`MessageField`].
pub enum MessageFieldView {
    Field(FieldTypeView),
    Group(GroupTypeView),
    VariableData(VariableDataTypeView),
}

/// The content of a message field.  A group's children are viewed in turn.
pub open spec fn message_field_view(f: MessageField) -> MessageFieldView
    decreases f,
{
    match f {
        MessageField::Field(t) => MessageFieldView::Field(t@),
        MessageField::Group(g) => MessageFieldView::Group(group_view(g)),
        MessageField::VariableData(v) => MessageFieldView::VariableData(v@),
    }
}

/// The content of a group.
pub open spec fn group_view(g: GroupType) -> GroupTypeView
    decreases g,
{
    GroupTypeView {
        name: g.name@,
        id: g.id,
        block_length: g.block_length,
        dimension_type: opt_text(g.dimension_type),
        semantic_type: opt_text(g.semantic_type),
        description: opt_text(g.description),
        since_version: g.since_version,
        deprecated: g.deprecated,
        fields: message_field_views(g.fields@),
    }
}

/// The contents of a sequence of message fields, in order.
pub open spec fn message_field_views(fs: Seq<MessageField>) -> Seq<MessageFieldView>
    decreases fs,
{
    if fs.len() == 0 {
        Seq::empty()
    } else {
        message_field_views(fs.drop_last()).push(message_field_view(fs.last()))
    }
}

impl View for MessageField {
    type V = MessageFieldView;

    open spec fn view(&self) -> MessageFieldView {
        message_field_view(*self)
    }
}

/// `message_field_views` goes item by item.
pub proof fn lemma_message_field_views(fs: Seq<MessageField>)
    ensures
        message_field_views(fs).len() == fs.len(),
        forall|i: int| 0 <= i < fs.len() ==> (#[trigger] message_field_views(fs)[i]) == fs[i]@,
    decreases fs.len(),
{
    if fs.len() > 0 {
        lemma_message_field_views(fs.drop_last());
    }
}

impl MessageFieldView {
    /// The declared name.
    pub open spec fn name(self) -> Seq<char> {
        match self {
            MessageFieldView::Field(t) => t.name,
            MessageFieldView::Group(t) => t.name,
            MessageFieldView::VariableData(t) => t.name,
        }
    }
}

/// Copies a list of message fields.
pub fn copy_message_fields(v: &Vec<MessageField>) -> (r: Vec<MessageField>)
    ensures
        message_field_views(r@) == message_field_views(v@),
    decreases v,
{
    let mut out: Vec<MessageField> = Vec::new();
    let mut i: usize = 0;
    while i < v.len()
        invariant
            i <= v.len(),
            out@.len() == i,
            forall|j: int| 0 <= j < i ==> (#[trigger] out@[j])@ == v@[j]@,
        decreases v.len() - i,
    {
        assert(decreases_to!(v => v[i as int]));
        let c = copy_message_field(&v[i]);
        out.push(c);
        i = i + 1;
    }
    proof {
        lemma_message_field_views(out@);
        lemma_message_field_views(v@);
        assert(message_field_views(out@) =~= message_field_views(v@));
    }
    out
}

/// Copies a group.
pub fn copy_group(g: &GroupType) -> (r: GroupType)
    ensures
        r@ == g@,
    decreases g,
{
    GroupType {
        name: g.name.clone(),
        id: g.id,
        block_length: g.block_length,
        dimension_type: copy_text(&g.dimension_type),
        semantic_type: copy_text(&g.semantic_type),
        description: copy_text(&g.description),
        since_version: g.since_version,
        deprecated: g.deprecated,
        fields: copy_message_fields(&g.fields),
    }
}

/// Copies a message field.
pub fn copy_message_field(f: &MessageField) -> (r: MessageField)
    ensures
        r@ == f@,
    decreases f,
{
    match f {
        MessageField::Field(t) => MessageField::Field(t.duplicate()),
        MessageField::Group(g) => MessageField::Group(copy_group(g)),
        MessageField::VariableData(v) => MessageField::VariableData(v.duplicate()),
    }
}

impl Clone for MessageField {
    fn clone(&self) -> (r: Self)
        ensures
            r@ == self@,
    {
        copy_message_field(self)
    }
}

impl Duplicate for MessageField {
    fn duplicate(&self) -> (r: Self) {
        copy_message_field(self)
    }
}

impl MessageField {
    /// The declared name.
    pub fn name(&self) -> (r: &str)
        ensures
            r@ == self@.name(),
    {
        match self {
            MessageField::Field(t) => t.name.as_str(),
            MessageField::Group(t) => t.name.as_str(),
            MessageField::VariableData(t) => t.name.as_str(),
        }
    }
}

} // verus!
