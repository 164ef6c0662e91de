//! The plans of the codecs, one module for each kind of construct.

pub mod composite_type;
pub mod enum_type;
pub mod group_type;
pub mod message_type;
pub mod set_type;
pub mod var_data_type;
