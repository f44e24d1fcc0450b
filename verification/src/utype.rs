//! Upper immediates: the U format, whose 20-bit immediate fills the word's
//! top bits verbatim.

use vstd::prelude::*;
use crate::chars::{eq_ignore_case, str_eq_ic};
use crate::instruction::Instruction;
use crate::instruction::word_to_bytes;
use crate::types::{Imm, Reg};

verus! {

#[derive(Debug, PartialEq, Eq, Structural, Clone, Copy)]
pub enum UTypeMne {
    LUI,
    AUIPC,
}

impl UTypeMne {
    /// Which U-format mnemonic a string names, ignoring ASCII case.
    pub open spec fn spec_from_str(s: Seq<char>) -> Result<UTypeMne, ()> {
        if eq_ignore_case(s, "lui"@) {
            Ok(UTypeMne::LUI)
        } else if eq_ignore_case(s, "auipc"@) {
            Ok(UTypeMne::AUIPC)
        } else {
            Err(())
        }
    }

    pub fn from_str(input: &str) -> (r: Result<UTypeMne, ()>)
        ensures
            r == Self::spec_from_str(input@),
    {
        if str_eq_ic(input, "lui") {
            Ok(UTypeMne::LUI)
        } else if str_eq_ic(input, "auipc") {
            Ok(UTypeMne::AUIPC)
        } else {
            Err(())
        }
    }

    /// The opcode the architecture fixes for this mnemonic.
    pub open spec fn spec_opcode(self) -> u32 {
        match self {
            UTypeMne::LUI => 0b0110111,
            UTypeMne::AUIPC => 0b0010111,
        }
    }

    pub fn opcode(&self) -> (r: u32)
        ensures
            r == self.spec_opcode(),
    {
        match self {
            UTypeMne::LUI => 0b0110111,
            UTypeMne::AUIPC => 0b0010111,
        }
    }
}

#[derive(Debug, PartialEq)]
pub struct UType {
    pub mne: UTypeMne,
    pub rd: Reg,
    pub imm: Imm,
}

/// The U word: imm[19:0] | rd | opcode, from bit 31 down to bit 0.
pub open spec fn utype_word(opcode: u32, rd: u32, imm: u32) -> u32 {
    (imm << 12) | (rd << 7) | opcode
}

impl Instruction for UType {
    open spec fn word(&self) -> u32 {
        utype_word(self.mne.spec_opcode(), self.rd, self.imm)
    }

    fn translate(&self) -> (r: Vec<u8>) {
        let opcode = self.mne.opcode();
        let result: u32 = (self.imm << 12) | (self.rd << 7) | opcode;
        word_to_bytes(result)
    }
}

/// With all operand fields zero, a U word holds only the mnemonic's opcode.
pub proof fn lemma_utype_zero_operands(m: UTypeMne)
    ensures
        utype_word(m.spec_opcode(), 0, 0) == m.spec_opcode(),
{
    let o = m.spec_opcode();
    assert(utype_word(o, 0, 0) == o) by (bit_vector);
}

/// The immediate read back out of a U word.
pub open spec fn utype_word_imm(w: u32) -> u32 {
    w >> 12
}

/// An immediate that fits the 20-bit field survives placement in the U word
/// unchanged.
pub proof fn lemma_utype_imm_round_trip(opcode: u32, rd: u32, imm: u32)
    requires
        opcode < 128,
        rd < 32,
        imm < 0x100000,
    ensures
        utype_word_imm(utype_word(opcode, rd, imm)) == imm,
{
    assert(utype_word_imm(utype_word(opcode, rd, imm)) == imm) by (bit_vector)
        requires
            opcode < 128,
            rd < 32,
            imm < 0x100000,
    ;
}

} // verus!
