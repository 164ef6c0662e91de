//! What the emitters work out before any text is written.

pub mod common;
pub mod python;
pub mod rust;

use vstd::prelude::*;

verus! {

/// Marks what is meant for the systems-language backend.
#[derive(PartialEq, Eq, Structural, Debug, Copy, Clone)]
pub struct Rust;

/// Marks what is meant for the scripting-runtime backend.
#[derive(PartialEq, Eq, Structural, Debug, Copy, Clone)]
pub struct Python;

} // verus!
