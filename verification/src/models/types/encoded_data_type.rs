//! Leaf encodings.

use crate::duplicate::Duplicate;
use crate::models::types::primitive_type::{NativeType, NativeTypeView};
use crate::models::types::{CharacterEncoding, Presence};
use crate::text::{copy_text, opt_text};
use crate::error::{Fault, SchemaError};
use crate::models::types::SizedEncoded;
use crate::models::{TypeMap, TypeMapView};
use crate::models::sizing::{encoded_size_within, literal_size_within};
use crate::models::table::Table;
use crate::models::types::primitive_type::{resolved_kind, ResolvableType};
use vstd::prelude::*;

verus! {

/// A leaf encoding: a primitive kind, how many of them, and how absence is told.
#[derive(PartialEq, Debug, Clone)]
pub struct EncodedDataType {
    pub name: String,
    pub since_version: Option<usize>,
    pub deprecated: Option<usize>,
    pub semantic_type: Option<String>,
    pub description: Option<String>,
    pub offset: Option<usize>,
    pub presence: Presence,
    pub null_value: Option<String>,
    pub min_value: Option<String>,
    pub max_value: Option<String>,
    pub length: Option<usize>,
    pub primitive_type: NativeType,
    pub character_encoding: Option<CharacterEncoding>,
    pub default_value: Option<String>,
}

/// The mathematical content of a [`EncodedDataType`].
pub struct EncodedDataTypeView {
    pub name: Seq<char>,
    pub since_version: Option<usize>,
    pub deprecated: Option<usize>,
    pub semantic_type: Option<Seq<char>>,
    pub description: Option<Seq<char>>,
    pub offset: Option<usize>,
    pub presence: Presence,
    pub null_value: Option<Seq<char>>,
    pub min_value: Option<Seq<char>>,
    pub max_value: Option<Seq<char>>,
    pub length: Option<usize>,
    pub primitive_type: NativeTypeView,
    pub character_encoding: Option<CharacterEncoding>,
    pub default_value: Option<Seq<char>>,
}

impl View for EncodedDataType {
    type V = EncodedDataTypeView;

    open spec fn view(&self) -> EncodedDataTypeView {
        EncodedDataTypeView {
            name: self.name@,
            since_version: self.since_version,
            deprecated: self.deprecated,
            semantic_type: opt_text(self.semantic_type),
            description: opt_text(self.description),
            offset: self.offset,
            presence: self.presence,
            null_value: opt_text(self.null_value),
            min_value: opt_text(self.min_value),
            max_value: opt_text(self.max_value),
            length: self.length,
            primitive_type: self.primitive_type@,
            character_encoding: self.character_encoding,
            default_value: opt_text(self.default_value),
        }
    }
}

impl Duplicate for EncodedDataType {
    fn duplicate(&self) -> (r: Self) {
        EncodedDataType {
            name: self.name.clone(),
            since_version: self.since_version,
            deprecated: self.deprecated,
            semantic_type: copy_text(&self.semantic_type),
            description: copy_text(&self.description),
            offset: self.offset,
            presence: self.presence,
            null_value: copy_text(&self.null_value),
            min_value: copy_text(&self.min_value),
            max_value: copy_text(&self.max_value),
            length: self.length,
            primitive_type: self.primitive_type.duplicate(),
            character_encoding: self.character_encoding,
            default_value: copy_text(&self.default_value),
        }
    }
}

impl EncodedDataTypeView {
    /// Whether a character encoding is declared for the type.
    pub open spec fn is_string(self) -> bool {
        self.character_encoding is Some
    }
}

impl EncodedDataType {
    /// Whether a character encoding is declared for the type.
    pub fn is_string(&self) -> (r: bool)
        ensures
            r == self@.is_string(),
    {
        self.character_encoding.is_some()
    }

    /// Whether values of this type can be hashed: those of its resolved primitive can.
    pub fn is_hashable(&self, types: &Table<EncodedDataType>) -> (r: Result<bool, SchemaError>)
        ensures
            match r {
                Ok(b) => resolved_kind(types@, self@.primitive_type, types@.len()) matches Ok(k)
                    && b == k.hashable(),
                Err(e) => resolved_kind(types@, self@.primitive_type, types@.len()) == Err::<
                    NativeTypeView,
                    Fault,
                >(e@),
            },
    {
        match self.primitive_type.resolved(types) {
            Ok(t) => Ok(t.is_hashable()),
            Err(e) => Err(e),
        }
    }
}

impl EncodedDataType {
    /// The size that the value takes, whatever the presence: for a constant, the size of
    /// its literal.
    pub fn literal_size(&self, types: &TypeMap) -> (r: Result<usize, SchemaError>)
        ensures
            crate::error::size_outcome(r) == types@.literal_size(self@, types@.count()),
    {
        literal_size_within(self, types, types.count())
    }
}

impl SizedEncoded for EncodedDataType {
    /// The size on the wire: the size of the primitive times the number of primitives;
    /// none for a constant.
    open spec fn encoded_size(&self, types: TypeMapView) -> Result<nat, Fault> {
        types.type_size(crate::models::types::TypeView::EncodedData(self@), types.count())
    }

    fn size(&self, types: &TypeMap) -> (r: Result<usize, SchemaError>) {
        encoded_size_within(self, types, types.count())
    }
}

} // verus!
