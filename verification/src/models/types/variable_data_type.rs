//! Variable-length data fields.

use crate::duplicate::Duplicate;
use crate::text::{copy_text, opt_text};
use crate::error::{Fault, SchemaError};
use crate::models::table::{lookup, Table};
use crate::models::types::composite_type::{CompositeType, CompositeTypeView};
use crate::models::types::encoded_data_type::{EncodedDataType, EncodedDataTypeView};
use crate::models::types::primitive_type::{
    resolved_kind, NativeType, NativeTypeView, ResolvableType,
};
use crate::models::types::{lemma_type_views, Type, TypeView};
use crate::models::{TypeMap, TypeMapView};
use vstd::prelude::*;

verus! {

/// A length-prefixed field of variable length at the tail of a message or group entry.
#[derive(PartialEq, Debug, Clone)]
pub struct VariableDataType {
    pub name: String,
    pub id: u16,
    pub type_ref: String,
    pub semantic_type: Option<String>,
    pub description: Option<String>,
    pub since_version: Option<usize>,
    pub deprecated: Option<usize>,
}

/// The mathematical content of a [`VariableDataType`].
pub struct VariableDataTypeView {
    pub name: Seq<char>,
    pub id: u16,
    pub type_ref: Seq<char>,
    pub semantic_type: Option<Seq<char>>,
    pub description: Option<Seq<char>>,
    pub since_version: Option<usize>,
    pub deprecated: Option<usize>,
}

impl View for VariableDataType {
    type V = VariableDataTypeView;

    open spec fn view(&self) -> VariableDataTypeView {
        VariableDataTypeView {
            name: self.name@,
            id: self.id,
            type_ref: self.type_ref@,
            semantic_type: opt_text(self.semantic_type),
            description: opt_text(self.description),
            since_version: self.since_version,
            deprecated: self.deprecated,
        }
    }
}

impl Duplicate for VariableDataType {
    fn duplicate(&self) -> (r: Self) {
        VariableDataType {
            name: self.name.clone(),
            id: self.id,
            type_ref: self.type_ref.clone(),
            semantic_type: copy_text(&self.semantic_type),
            description: copy_text(&self.description),
            since_version: self.since_version,
            deprecated: self.deprecated,
        }
    }
}

impl VariableDataTypeView {
    /// The composite that says how the field is laid out.
    pub open spec fn repr_type(self, composite_types: Seq<(Seq<char>, CompositeTypeView)>) -> Result<
        CompositeTypeView,
        Fault,
    > {
        match lookup(composite_types, self.type_ref) {
            Some(c) => Ok(c),
            None => Err(Fault::MissingVarDataType { type_ref: self.type_ref, name: self.name }),
        }
    }

    /// The encoded type of the elements: the second sub-field of the descriptor.
    pub open spec fn value_type(self, composite_types: Seq<(Seq<char>, CompositeTypeView)>) -> Result<
        EncodedDataTypeView,
        Fault,
    > {
        match self.repr_type(composite_types) {
            Err(f) => Err(f),
            Ok(c) => if c.fields.len() != 2 {
                Err(Fault::VarDataShape(self.name))
            } else {
                match c.fields[1] {
                    TypeView::EncodedData(e) => Ok(e),
                    _ => Err(Fault::VarDataValueNotEncoded(self.name)),
                }
            },
        }
    }

    /// The primitive kind of the elements, resolved through the table.
    pub open spec fn element_kind(self, types: TypeMapView) -> Result<NativeTypeView, Fault> {
        match self.value_type(types.composite_types) {
            Ok(e) => resolved_kind(types.encoded_types, e.primitive_type, types.encoded_types.len()),
            Err(f) => Err(f),
        }
    }

    /// The field holds a character sequence exactly if its elements resolve to
    /// characters, whatever encoding is declared.
    pub open spec fn is_string(self, types: TypeMapView) -> Result<bool, Fault> {
        match self.element_kind(types) {
            Ok(k) => Ok(k is Char),
            Err(f) => Err(f),
        }
    }

    /// The elements are single bytes, so that runs of them can be read and written at
    /// once, exactly if they resolve to characters or to unsigned 8-bit numbers.
    pub open spec fn is_bytes(self, types: TypeMapView) -> Result<bool, Fault> {
        match self.element_kind(types) {
            Ok(k) => Ok(k is Char || k is UInt8),
            Err(f) => Err(f),
        }
    }
}

impl VariableDataType {
    /// The composite that says how the field is laid out.
    pub fn repr_type<'a>(&self, composite_types: &'a Table<CompositeType>) -> (r: Result<
        &'a CompositeType,
        SchemaError,
    >)
        ensures
            match r {
                Ok(c) => self@.repr_type(composite_types@) == Ok::<CompositeTypeView, Fault>(c@),
                Err(e) => self@.repr_type(composite_types@) == Err::<CompositeTypeView, Fault>(e@),
            },
    {
        match composite_types.get(self.type_ref.as_str()) {
            Some(c) => Ok(c),
            None => Err(
                SchemaError::MissingVarDataType {
                    type_ref: self.type_ref.clone(),
                    name: self.name.clone(),
                },
            ),
        }
    }

    /// The encoded type of the elements.
    pub fn value_type<'a>(&self, composite_types: &'a Table<CompositeType>) -> (r: Result<
        &'a EncodedDataType,
        SchemaError,
    >)
        ensures
            match r {
                Ok(e) => self@.value_type(composite_types@) == Ok::<EncodedDataTypeView, Fault>(e@),
                Err(e) => self@.value_type(composite_types@) == Err::<EncodedDataTypeView, Fault>(
                    e@,
                ),
            },
    {
        let repr_type = match self.repr_type(composite_types) {
            Ok(c) => c,
            Err(e) => { return Err(e); },
        };
        proof {
            lemma_type_views(repr_type.fields@);
        }
        if repr_type.fields.len() != 2 {
            return Err(SchemaError::VarDataShape(self.name.clone()));
        }
        match &repr_type.fields[1] {
            Type::EncodedData(var_data_type) => Ok(var_data_type),
            _ => Err(SchemaError::VarDataValueNotEncoded(self.name.clone())),
        }
    }

    /// The primitive kind of the elements, resolved through the table.
    pub fn element_kind(&self, types: &TypeMap) -> (r: Result<NativeType, SchemaError>)
        ensures
            match r {
                Ok(k) => self@.element_kind(types@) == Ok::<NativeTypeView, Fault>(k@),
                Err(e) => self@.element_kind(types@) == Err::<NativeTypeView, Fault>(e@),
            },
    {
        let value_type = match self.value_type(&types.composite_types) {
            Ok(value_type) => value_type,
            Err(e) => { return Err(e); },
        };
        value_type.primitive_type.resolved(&types.encoded_types)
    }

    /// Whether the field holds a character sequence: its elements are characters.
    pub fn is_string(&self, types: &TypeMap) -> (r: Result<bool, SchemaError>)
        ensures
            crate::error::flag_outcome(r) == self@.is_string(types@),
    {
        match self.element_kind(types) {
            Ok(k) => Ok(matches!(k, NativeType::Char)),
            Err(e) => Err(e),
        }
    }

    /// Whether the elements are single bytes: characters or unsigned 8-bit numbers.
    pub fn is_bytes(&self, types: &TypeMap) -> (r: Result<bool, SchemaError>)
        ensures
            crate::error::flag_outcome(r) == self@.is_bytes(types@),
    {
        match self.element_kind(types) {
            Ok(k) => Ok(matches!(k, NativeType::Char | NativeType::UInt8)),
            Err(e) => Err(e),
        }
    }
}

} // verus!
