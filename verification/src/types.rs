//! The plain value types instructions are built from.

use vstd::prelude::*;

verus! {

/// A register index; valid values lie in 0..=31.
pub type Reg = u32;

/// A 32-bit immediate operand (two's complement where signed).
pub type Imm = u32;

} // verus!
