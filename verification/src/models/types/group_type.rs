//! Repeating groups.

use crate::duplicate::Duplicate;
use crate::models::types::{copy_group, group_view, MessageField, MessageFieldView};
use vstd::prelude::*;

verus! {

/// A repeating block within a message.
#[derive(PartialEq, Debug)]
pub struct GroupType {
    pub name: String,
    pub id: u16,
    pub block_length: Option<usize>,
    pub dimension_type: Option<String>,
    pub semantic_type: Option<String>,
    pub description: Option<String>,
    pub since_version: Option<usize>,
    pub deprecated: Option<usize>,
    pub fields: Vec<MessageField>,
}

/// The mathematical content of a [`GroupType`].
pub struct GroupTypeView {
    pub name: Seq<char>,
    pub id: u16,
    pub block_length: Option<usize>,
    pub dimension_type: Option<Seq<char>>,
    pub semantic_type: Option<Seq<char>>,
    pub description: Option<Seq<char>>,
    pub since_version: Option<usize>,
    pub deprecated: Option<usize>,
    pub fields: Seq<MessageFieldView>,
}

impl View for GroupType {
    type V = GroupTypeView;

    open spec fn view(&self) -> GroupTypeView {
        group_view(*self)
    }
}

impl Clone for GroupType {
    fn clone(&self) -> (r: Self)
        ensures
            r@ == self@,
    {
        copy_group(self)
    }
}

impl Duplicate for GroupType {
    fn duplicate(&self) -> (r: Self) {
        copy_group(self)
    }
}

} // verus!
