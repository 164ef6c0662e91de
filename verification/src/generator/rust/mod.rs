//! The systems-language backend.

pub mod codecs;
pub mod decoder;
pub mod encoder;
pub mod module;
