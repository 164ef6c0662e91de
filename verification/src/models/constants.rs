//! Widths in bytes of the primitive kinds, and the literals that stand for "no value".

use vstd::prelude::*;

verus! {

// CHAR
pub const CHAR_SIZE: usize = 1;

pub const CHAR_NULL: &'static str = "u8::MIN";

// U8
pub const U8_SIZE: usize = 1;

pub const U8_NULL: &'static str = "u8::MAX";

// U16
pub const U16_SIZE: usize = 2;

pub const U16_NULL: &'static str = "u16::MAX";

// U32
pub const U32_SIZE: usize = 4;

pub const U32_NULL: &'static str = "u32::MAX";

// U64
pub const U64_SIZE: usize = 8;

pub const U64_NULL: &'static str = "u64::MAX";

// I8
pub const I8_SIZE: usize = 1;

pub const I8_NULL: &'static str = "i8::MIN";

// I16
pub const I16_SIZE: usize = 2;

pub const I16_NULL: &'static str = "i16::MIN";

// I32
pub const I32_SIZE: usize = 4;

pub const I32_NULL: &'static str = "i32::MIN";

// I64
pub const I64_SIZE: usize = 8;

pub const I64_NULL: &'static str = "i64::MIN";

// F32
pub const F32_SIZE: usize = 4;

pub const F32_NULL: &'static str = "f32::NAN";

// F64
pub const F64_SIZE: usize = 8;

pub const F64_NULL: &'static str = "f64::NAN";

} // verus!
