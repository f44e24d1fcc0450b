//! The interface every encodable instruction offers: packing into the 4-byte
//! machine-code word, most significant byte first.

use vstd::prelude::*;

verus! {

/// The four bytes of a 32-bit machine word, most significant byte first.
pub open spec fn word_bytes(w: u32) -> Seq<u8> {
    seq![(w >> 24) as u8, (w >> 16) as u8, (w >> 8) as u8, w as u8]
}

/// An instruction that can be packed into its machine-code word.
pub trait Instruction {
    /// The 32-bit word the instruction encodes to.
    spec fn word(&self) -> u32;

    /// Packs the instruction into four bytes, most significant byte first.
    fn translate(&self) -> (r: Vec<u8>)
        ensures
            r@ == word_bytes(self.word()),
    ;
}

/// Emits a 32-bit word as four bytes, most significant byte first.
pub fn word_to_bytes(w: u32) -> (r: Vec<u8>)
    ensures
        r@ == word_bytes(w),
{
    let mut r: Vec<u8> = Vec::new();
    r.push(#[verifier::truncate] ((w >> 24) as u8));
    r.push(#[verifier::truncate] ((w >> 16) as u8));
    r.push(#[verifier::truncate] ((w >> 8) as u8));
    r.push(#[verifier::truncate] (w as u8));
    proof {
        assert(r@ =~= word_bytes(w));
    }
    r
}

} // verus!
