//! Unconditional jumps: the J format, with its shuffled 21-bit PC-relative
//! immediate (low bit implicit zero).

use vstd::prelude::*;
use crate::chars::{eq_ignore_case, str_eq_ic};
use crate::instruction::Instruction;
use crate::instruction::word_to_bytes;
use crate::types::{Imm, Reg};

verus! {

#[derive(Debug, PartialEq, Eq, Structural, Clone, Copy)]
pub enum JTypeMne {
    JAL,
}

impl JTypeMne {
    /// Which J-format mnemonic a string names, ignoring ASCII case.
    pub open spec fn spec_from_str(s: Seq<char>) -> Result<JTypeMne, ()> {
        if eq_ignore_case(s, "jal"@) {
            Ok(JTypeMne::JAL)
        } else {
            Err(())
        }
    }

    pub fn from_str(input: &str) -> (r: Result<JTypeMne, ()>)
        ensures
            r == Self::spec_from_str(input@),
    {
        if str_eq_ic(input, "jal") {
            Ok(JTypeMne::JAL)
        } else {
            Err(())
        }
    }
}

#[derive(Debug, PartialEq)]
pub struct JType {
    pub mne: JTypeMne,
    pub rd: Reg,
    pub imm: Imm,
}

/// The J word: imm[20] | imm[10:1] | imm[11] | imm[19:12] | rd | opcode,
/// from bit 31 down to bit 0.
pub open spec fn jtype_word(rd: u32, imm: u32) -> u32 {
    (((((imm >> 20) & 0x1) << 19) | (((imm >> 1) & 0x3FF) << 9) | (((imm >> 11) & 0x1) << 8) | ((
    imm >> 12) & 0xFF)) << 12) | (rd << 7) | 0x6F
}

impl Instruction for JType {
    open spec fn word(&self) -> u32 {
        jtype_word(self.rd, self.imm)
    }

    fn translate(&self) -> (r: Vec<u8>) {
        let opcode: u32 = match self.mne {
            JTypeMne::JAL => 0x6F,
        };
        let imm20 = (self.imm >> 20) & 0x1;
        let imm10_1 = (self.imm >> 1) & 0x3FF;
        let imm11 = (self.imm >> 11) & 0x1;
        let imm19_12 = (self.imm >> 12) & 0xFF;
        let ordered_imm = (imm20 << 19) | (imm10_1 << 9) | (imm11 << 8) | imm19_12;
        let result: u32 = (ordered_imm << 12) | (self.rd << 7) | opcode;
        word_to_bytes(result)
    }
}

/// With all operand fields zero, a J word holds only the opcode.
pub proof fn lemma_jtype_zero_operands()
    ensures
        jtype_word(0, 0) == 0x6F,
{
    assert(jtype_word(0, 0) == 0x6F) by (bit_vector);
}

/// The immediate read back out of a J word: the inverse of the shuffle
/// `jtype_word` performs, with the implicit low zero bit restored.
pub open spec fn jtype_word_imm(w: u32) -> u32 {
    (((w >> 31) & 0x1) << 20) | (((w >> 21) & 0x3FF) << 1) | (((w >> 20) & 0x1) << 11) | (((w
        >> 12) & 0xFF) << 12)
}

/// Splitting an even immediate that fits the 21-bit jump field into the jump
/// layout and reassembling it through the inverse shuffle yields the
/// immediate unchanged.
pub proof fn lemma_jtype_imm_round_trip(rd: u32, imm: u32)
    requires
        rd < 32,
        imm < 0x200000,
        imm & 0x1 == 0,
    ensures
        jtype_word_imm(jtype_word(rd, imm)) == imm,
{
    assert(jtype_word_imm(jtype_word(rd, imm)) == imm) by (bit_vector)
        requires
            rd < 32,
            imm < 0x200000,
            imm & 0x1 == 0,
    ;
}

} // verus!
