//! Composites.

use crate::duplicate::Duplicate;
use crate::models::types::{composite_view, copy_composite, Type, TypeView};
use crate::error::{Fault, SchemaError};
use crate::models::types::SizedEncoded;
use crate::models::{TypeMap, TypeMapView};
use crate::models::sizing::composite_size_within;
use vstd::prelude::*;

verus! {

/// An ordered tuple of sub-types, laid out one after the other.
#[derive(PartialEq, Debug)]
pub struct CompositeType {
    pub name: String,
    pub since_version: Option<usize>,
    pub deprecated: Option<usize>,
    pub semantic_type: Option<String>,
    pub description: Option<String>,
    pub offset: Option<usize>,
    pub fields: Vec<Type>,
}

/// The mathematical content of a [`CompositeType`].
pub struct CompositeTypeView {
    pub name: Seq<char>,
    pub since_version: Option<usize>,
    pub deprecated: Option<usize>,
    pub semantic_type: Option<Seq<char>>,
    pub description: Option<Seq<char>>,
    pub offset: Option<usize>,
    pub fields: Seq<TypeView>,
}

impl View for CompositeType {
    type V = CompositeTypeView;

    open spec fn view(&self) -> CompositeTypeView {
        composite_view(*self)
    }
}

impl Clone for CompositeType {
    fn clone(&self) -> (r: Self)
        ensures
            r@ == self@,
    {
        copy_composite(self)
    }
}

impl Duplicate for CompositeType {
    fn duplicate(&self) -> (r: Self) {
        copy_composite(self)
    }
}

impl SizedEncoded for CompositeType {
    open spec fn encoded_size(&self, types: TypeMapView) -> Result<nat, Fault> {
        types.fields_size(self@.fields, types.count())
    }

    fn size(&self, types: &TypeMap) -> (r: Result<usize, SchemaError>) {
        composite_size_within(self, types, types.count())
    }
}

} // verus!
