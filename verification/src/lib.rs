//! Decimal floating point arithmetic on the 64-bit decimal format of
//! IEEE 754-2008, with the arithmetic of libdecNumber.
#![allow(non_camel_case_types)]
use vstd::prelude::*;

pub mod encoding;
pub mod status;
pub mod bindings;
pub mod dec64;
pub mod convert;
pub mod arith;
pub mod order;
pub mod reporting;
pub mod laws;

pub use dec64::{d64, Class, FpCategory, DecimalOperand};
pub use encoding::Decoded;
pub use status::Flags;

verus! {
}
