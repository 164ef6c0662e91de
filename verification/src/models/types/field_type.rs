//! Fields of messages and groups.

use crate::duplicate::Duplicate;
use crate::models::types::Presence;
use crate::text::{copy_text, opt_text};
use crate::error::SchemaError;
use crate::models::types::encoded_data_type::{EncodedDataType, EncodedDataTypeView};
use crate::models::types::primitive_type::{NativeType, NativeTypeView};
use crate::models::types::{Type, TypeView};
use crate::models::{TypeMap, TypeMapView};
use vstd::prelude::*;

verus! {

/// A leaf field of a message or of a group entry.
#[derive(PartialEq, Debug, Clone)]
pub struct FieldType {
    pub name: String,
    pub id: u16,
    pub since_version: Option<usize>,
    pub deprecated: Option<usize>,
    pub semantic_type: Option<String>,
    pub description: Option<String>,
    pub offset: Option<usize>,
    pub presence: Presence,
    pub type_ref: String,
    pub epoch: Option<String>,
    pub value_ref: Option<String>,
}

/// The mathematical content of a [`FieldType`].
pub struct FieldTypeView {
    pub name: Seq<char>,
    pub id: u16,
    pub since_version: Option<usize>,
    pub deprecated: Option<usize>,
    pub semantic_type: Option<Seq<char>>,
    pub description: Option<Seq<char>>,
    pub offset: Option<usize>,
    pub presence: Presence,
    pub type_ref: Seq<char>,
    pub epoch: Option<Seq<char>>,
    pub value_ref: Option<Seq<char>>,
}

impl View for FieldType {
    type V = FieldTypeView;

    open spec fn view(&self) -> FieldTypeView {
        FieldTypeView {
            name: self.name@,
            id: self.id,
            since_version: self.since_version,
            deprecated: self.deprecated,
            semantic_type: opt_text(self.semantic_type),
            description: opt_text(self.description),
            offset: self.offset,
            presence: self.presence,
            type_ref: self.type_ref@,
            epoch: opt_text(self.epoch),
            value_ref: opt_text(self.value_ref),
        }
    }
}

impl Duplicate for FieldType {
    fn duplicate(&self) -> (r: Self) {
        FieldType {
            name: self.name.clone(),
            id: self.id,
            since_version: self.since_version,
            deprecated: self.deprecated,
            semantic_type: copy_text(&self.semantic_type),
            description: copy_text(&self.description),
            offset: self.offset,
            presence: self.presence,
            type_ref: self.type_ref.clone(),
            epoch: copy_text(&self.epoch),
            value_ref: copy_text(&self.value_ref),
        }
    }
}

impl FieldTypeView {
    /// The encoded type that a field stands for when its type is not declared: it takes
    /// the field's name and presence, and the field's type name as its primitive.
    pub open spec fn as_encoded(self) -> EncodedDataTypeView {
        EncodedDataTypeView {
            name: self.name,
            since_version: self.since_version,
            deprecated: self.deprecated,
            semantic_type: self.semantic_type,
            description: self.description,
            offset: self.offset,
            presence: self.presence,
            null_value: None,
            min_value: None,
            max_value: None,
            length: None,
            primitive_type: NativeTypeView::of_name(self.type_ref),
            character_encoding: None,
            default_value: self.value_ref,
        }
    }

    /// The type of the field: the declared type of that name, or else an encoded type
    /// made from the field itself.
    pub open spec fn resolved_type(self, types: TypeMapView) -> TypeView {
        match types.find(self.type_ref) {
            Some(t) => t,
            None => TypeView::EncodedData(self.as_encoded()),
        }
    }
}

impl FieldType {
    /// The encoded type made from the field itself.
    pub fn to_encoded(&self) -> (r: EncodedDataType)
        ensures
            r@ == self@.as_encoded(),
    {
        EncodedDataType {
            name: self.name.clone(),
            since_version: self.since_version,
            deprecated: self.deprecated,
            semantic_type: copy_text(&self.semantic_type),
            description: copy_text(&self.description),
            offset: self.offset,
            presence: self.presence,
            null_value: None,
            min_value: None,
            max_value: None,
            length: None,
            primitive_type: NativeType::from_name(self.type_ref.as_str()),
            character_encoding: None,
            default_value: copy_text(&self.value_ref),
        }
    }

    /// The type of the field.  It always has one.
    pub fn to_type(&self, types: &TypeMap) -> (r: Result<Type, SchemaError>)
        ensures
            r matches Ok(t) && t@ == self@.resolved_type(types@),
    {
        match types.find_type(self.type_ref.as_str()) {
            Some(t) => Ok(t),
            None => Ok(Type::EncodedData(self.to_encoded())),
        }
    }
}

} // verus!
