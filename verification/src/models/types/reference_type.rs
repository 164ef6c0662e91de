//! References into the type table.

use crate::duplicate::Duplicate;
use crate::error::{Fault, SchemaError};
use crate::models::types::SizedEncoded;
use crate::models::{TypeMap, TypeMapView};
use crate::models::sizing::native_size_within;
use crate::models::types::primitive_type::{NativeType, NativeTypeView};
use vstd::prelude::*;

verus! {

/// A name that stands for a declared type.
#[derive(PartialEq, Debug, Clone)]
pub struct ReferenceType {
    pub name: String,
    pub since_version: Option<usize>,
    pub deprecated: Option<usize>,
    pub offset: Option<usize>,
    pub type_ref: String,
}

/// The mathematical content of a [`ReferenceType`].
pub struct ReferenceTypeView {
    pub name: Seq<char>,
    pub since_version: Option<usize>,
    pub deprecated: Option<usize>,
    pub offset: Option<usize>,
    pub type_ref: Seq<char>,
}

impl View for ReferenceType {
    type V = ReferenceTypeView;

    open spec fn view(&self) -> ReferenceTypeView {
        ReferenceTypeView {
            name: self.name@,
            since_version: self.since_version,
            deprecated: self.deprecated,
            offset: self.offset,
            type_ref: self.type_ref@,
        }
    }
}

impl Duplicate for ReferenceType {
    fn duplicate(&self) -> (r: Self) {
        ReferenceType {
            name: self.name.clone(),
            since_version: self.since_version,
            deprecated: self.deprecated,
            offset: self.offset,
            type_ref: self.type_ref.clone(),
        }
    }
}

impl SizedEncoded for ReferenceType {
    /// The size of the type that the reference names.
    open spec fn encoded_size(&self, types: TypeMapView) -> Result<nat, Fault> {
        types.native_size(NativeTypeView::Reference(self@.type_ref), types.count())
    }

    fn size(&self, types: &TypeMap) -> (r: Result<usize, SchemaError>) {
        let named = NativeType::Reference(self.type_ref.clone());
        native_size_within(&named, types, types.count())
    }
}

} // verus!
