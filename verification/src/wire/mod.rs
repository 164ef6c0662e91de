//! The wire format itself: what the emitted codecs do to the bytes of a buffer.

pub mod block;
pub mod buffer;
pub mod enum_set;
pub mod error;
pub mod group;
pub mod layout;
pub mod message;
pub mod scalar;
pub mod text_field;
pub mod tree;
pub mod var_data;
