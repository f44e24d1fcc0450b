//! Stores: the S format, with its 12-bit immediate split around the register
//! fields.

use vstd::prelude::*;
use crate::chars::{eq_ignore_case, str_eq_ic};
use crate::instruction::Instruction;
use crate::instruction::word_to_bytes;
use crate::types::{Imm, Reg};

verus! {

#[derive(Debug, PartialEq, Eq, Structural, Clone, Copy)]
pub enum STypeMne {
    SB,
    SH,
    SW,
}

impl STypeMne {
    /// Which store mnemonic a string names, ignoring ASCII case.
    pub open spec fn spec_from_str(s: Seq<char>) -> Result<STypeMne, ()> {
        if eq_ignore_case(s, "sb"@) {
            Ok(STypeMne::SB)
        } else if eq_ignore_case(s, "sh"@) {
            Ok(STypeMne::SH)
        } else if eq_ignore_case(s, "sw"@) {
            Ok(STypeMne::SW)
        } else {
            Err(())
        }
    }

    pub fn from_str(input: &str) -> (r: Result<STypeMne, ()>)
        ensures
            r == Self::spec_from_str(input@),
    {
        if str_eq_ic(input, "sb") {
            Ok(STypeMne::SB)
        } else if str_eq_ic(input, "sh") {
            Ok(STypeMne::SH)
        } else if str_eq_ic(input, "sw") {
            Ok(STypeMne::SW)
        } else {
            Err(())
        }
    }

    /// The funct3 discriminator the architecture fixes for this mnemonic.
    pub open spec fn spec_funct3(self) -> u32 {
        match self {
            STypeMne::SB => 0b000,
            STypeMne::SH => 0b001,
            STypeMne::SW => 0b010,
        }
    }

    pub fn funct3(&self) -> (r: u32)
        ensures
            r == self.spec_funct3(),
    {
        match self {
            STypeMne::SB => 0b000,
            STypeMne::SH => 0b001,
            STypeMne::SW => 0b010,
        }
    }
}

#[derive(Debug, PartialEq)]
pub struct SType {
    pub mne: STypeMne,
    pub rs2: Reg,
    pub imm: Imm,
    pub rs1: Reg,
}

/// The S word: imm[11:5] | rs2 | rs1 | funct3 | imm[4:0] | opcode, from bit
/// 31 down to bit 0.
pub open spec fn stype_word(funct3: u32, rs1: u32, rs2: u32, imm: u32) -> u32 {
    (((imm >> 5) & 0x7F) << 25) | (rs2 << 20) | (rs1 << 15) | (funct3 << 12) | ((imm & 0x1F) << 7)
        | 0b0100011
}

impl Instruction for SType {
    open spec fn word(&self) -> u32 {
        stype_word(self.mne.spec_funct3(), self.rs1, self.rs2, self.imm)
    }

    fn translate(&self) -> (r: Vec<u8>) {
        let opcode: u32 = 0b0100011;
        let funct3 = self.mne.funct3();
        let imm11_5 = (self.imm >> 5) & 0x7F;
        let imm4_0 = self.imm & 0x1F;
        let result: u32 = (imm11_5 << 25) | (self.rs2 << 20) | (self.rs1 << 15) | (funct3 << 12)
            | (imm4_0 << 7) | opcode;
        word_to_bytes(result)
    }
}

/// With all operand fields zero, an S word holds only the mnemonic's funct3
/// bits and the opcode.
pub proof fn lemma_stype_zero_operands(m: STypeMne)
    ensures
        stype_word(m.spec_funct3(), 0, 0, 0) == (m.spec_funct3() << 12) | 0b0100011,
{
    let f = m.spec_funct3();
    assert(stype_word(f, 0, 0, 0) == (f << 12) | 0b0100011) by (bit_vector);
}

/// The immediate read back out of an S word: the low five bits rejoin the
/// high seven.
pub open spec fn stype_word_imm(w: u32) -> u32 {
    (((w >> 25) & 0x7F) << 5) | ((w >> 7) & 0x1F)
}

/// An immediate that fits the 12-bit field survives the split placement in
/// the S word unchanged.
pub proof fn lemma_stype_imm_round_trip(funct3: u32, rs1: u32, rs2: u32, imm: u32)
    requires
        funct3 < 8,
        rs1 < 32,
        rs2 < 32,
        imm < 0x1000,
    ensures
        stype_word_imm(stype_word(funct3, rs1, rs2, imm)) == imm,
{
    assert(stype_word_imm(stype_word(funct3, rs1, rs2, imm)) == imm) by (bit_vector)
        requires
            funct3 < 8,
            rs1 < 32,
            rs2 < 32,
            imm < 0x1000,
    ;
}

} // verus!
