//! Messages.

use crate::duplicate::Duplicate;
use crate::models::types::{copy_message_fields, message_field_views, MessageField, MessageFieldView};
use crate::text::{copy_text, opt_text};
use vstd::prelude::*;

verus! {

/// A top-level message.
#[derive(PartialEq, Debug, Clone)]
pub struct MessageType {
    pub name: String,
    pub id: u16,
    pub block_length: Option<usize>,
    pub semantic_type: Option<String>,
    pub description: Option<String>,
    pub since_version: Option<usize>,
    pub deprecated: Option<usize>,
    pub fields: Vec<MessageField>,
}

/// The mathematical content of a [`MessageType`].
pub struct MessageTypeView {
    pub name: Seq<char>,
    pub id: u16,
    pub block_length: Option<usize>,
    pub semantic_type: Option<Seq<char>>,
    pub description: Option<Seq<char>>,
    pub since_version: Option<usize>,
    pub deprecated: Option<usize>,
    pub fields: Seq<MessageFieldView>,
}

impl View for MessageType {
    type V = MessageTypeView;

    open spec fn view(&self) -> MessageTypeView {
        MessageTypeView {
            name: self.name@,
            id: self.id,
            block_length: self.block_length,
            semantic_type: opt_text(self.semantic_type),
            description: opt_text(self.description),
            since_version: self.since_version,
            deprecated: self.deprecated,
            fields: message_field_views(self.fields@),
        }
    }
}

impl Duplicate for MessageType {
    fn duplicate(&self) -> (r: Self) {
        MessageType {
            name: self.name.clone(),
            id: self.id,
            block_length: self.block_length,
            semantic_type: copy_text(&self.semantic_type),
            description: copy_text(&self.description),
            since_version: self.since_version,
            deprecated: self.deprecated,
            fields: copy_message_fields(&self.fields),
        }
    }
}

} // verus!
