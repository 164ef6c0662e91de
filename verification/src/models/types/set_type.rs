//! Bit-sets.

use crate::duplicate::{duplicate_all, views_of, Duplicate};
use crate::models::types::primitive_type::{NativeType, NativeTypeView};
use crate::text::{copy_text, opt_text};
use crate::error::{Fault, SchemaError};
use crate::models::types::SizedEncoded;
use crate::models::{TypeMap, TypeMapView};
use crate::models::sizing::native_size_within;
use vstd::prelude::*;

verus! {

/// Independent flags packed into one unsigned primitive.
#[derive(PartialEq, Debug, Clone)]
pub struct SetType {
    pub name: String,
    pub since_version: Option<usize>,
    pub deprecated: Option<usize>,
    pub semantic_type: Option<String>,
    pub description: Option<String>,
    pub offset: Option<usize>,
    pub encoding_type: NativeType,
    pub choices: Vec<Choice>,
}

/// The mathematical content of a [`SetType`].
pub struct SetTypeView {
    pub name: Seq<char>,
    pub since_version: Option<usize>,
    pub deprecated: Option<usize>,
    pub semantic_type: Option<Seq<char>>,
    pub description: Option<Seq<char>>,
    pub offset: Option<usize>,
    pub encoding_type: NativeTypeView,
    pub choices: Seq<ChoiceView>,
}

impl View for SetType {
    type V = SetTypeView;

    open spec fn view(&self) -> SetTypeView {
        SetTypeView {
            name: self.name@,
            since_version: self.since_version,
            deprecated: self.deprecated,
            semantic_type: opt_text(self.semantic_type),
            description: opt_text(self.description),
            offset: self.offset,
            encoding_type: self.encoding_type@,
            choices: views_of(self.choices@),
        }
    }
}

impl Duplicate for SetType {
    fn duplicate(&self) -> (r: Self) {
        SetType {
            name: self.name.clone(),
            since_version: self.since_version,
            deprecated: self.deprecated,
            semantic_type: copy_text(&self.semantic_type),
            description: copy_text(&self.description),
            offset: self.offset,
            encoding_type: self.encoding_type.duplicate(),
            choices: duplicate_all(&self.choices),
        }
    }
}

/// One named bit of a bit-set.
#[derive(PartialEq, Debug, Clone)]
pub struct Choice {
    pub name: String,
    pub since_version: Option<usize>,
    pub deprecated: Option<usize>,
    pub description: Option<String>,
    pub value: u64,
}

/// The mathematical content of a [`Choice`].
pub struct ChoiceView {
    pub name: Seq<char>,
    pub since_version: Option<usize>,
    pub deprecated: Option<usize>,
    pub description: Option<Seq<char>>,
    pub value: u64,
}

impl View for Choice {
    type V = ChoiceView;

    open spec fn view(&self) -> ChoiceView {
        ChoiceView {
            name: self.name@,
            since_version: self.since_version,
            deprecated: self.deprecated,
            description: opt_text(self.description),
            value: self.value,
        }
    }
}

impl Duplicate for Choice {
    fn duplicate(&self) -> (r: Self) {
        Choice {
            name: self.name.clone(),
            since_version: self.since_version,
            deprecated: self.deprecated,
            description: copy_text(&self.description),
            value: self.value,
        }
    }
}

impl SizedEncoded for SetType {
    open spec fn encoded_size(&self, types: TypeMapView) -> Result<nat, Fault> {
        types.native_size(self@.encoding_type, types.count())
    }

    fn size(&self, types: &TypeMap) -> (r: Result<usize, SchemaError>) {
        native_size_within(&self.encoding_type, types, types.count())
    }
}

} // verus!
