//! Schema model, layout arithmetic and codec plans for Simple Binary Encoding.

pub mod duplicate;
pub mod error;
pub mod generator;
pub mod models;
pub mod naming;
pub mod text;
pub mod wire;
