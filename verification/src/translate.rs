//! A bare packing interface, mirroring `Instruction` without a contract.
//! No type of this crate implements it; the instruction formats implement
//! `Instruction`, whose `translate` is specified against their words.

use vstd::prelude::*;

verus! {

pub trait Translate {
    /// Packs an instruction into its 4-byte machine-code word.
    fn translate(&self) -> Vec<u8>;
}

} // verus!
