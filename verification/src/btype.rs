//! Conditional branches: the B format, with its shuffled 13-bit PC-relative
//! immediate (low bit implicit zero).

use vstd::prelude::*;
use crate::chars::{eq_ignore_case, str_eq_ic};
use crate::instruction::Instruction;
use crate::instruction::word_to_bytes;
use crate::types::{Imm, Reg};

verus! {

#[derive(Debug, PartialEq, Eq, Structural, Clone, Copy)]
pub enum BTypeMne {
    BEQ,
    BNE,
    BLT,
    BGE,
    BLTU,
    BGEU,
}

impl BTypeMne {
    /// Which branch mnemonic a string names, ignoring ASCII case.
    pub open spec fn spec_from_str(s: Seq<char>) -> Result<BTypeMne, ()> {
        if eq_ignore_case(s, "beq"@) {
            Ok(BTypeMne::BEQ)
        } else if eq_ignore_case(s, "bne"@) {
            Ok(BTypeMne::BNE)
        } else if eq_ignore_case(s, "blt"@) {
            Ok(BTypeMne::BLT)
        } else if eq_ignore_case(s, "bge"@) {
            Ok(BTypeMne::BGE)
        } else if eq_ignore_case(s, "bltu"@) {
            Ok(BTypeMne::BLTU)
        } else if eq_ignore_case(s, "bgeu"@) {
            Ok(BTypeMne::BGEU)
        } else {
            Err(())
        }
    }

    pub fn from_str(input: &str) -> (r: Result<BTypeMne, ()>)
        ensures
            r == Self::spec_from_str(input@),
    {
        if str_eq_ic(input, "beq") {
            Ok(BTypeMne::BEQ)
        } else if str_eq_ic(input, "bne") {
            Ok(BTypeMne::BNE)
        } else if str_eq_ic(input, "blt") {
            Ok(BTypeMne::BLT)
        } else if str_eq_ic(input, "bge") {
            Ok(BTypeMne::BGE)
        } else if str_eq_ic(input, "bltu") {
            Ok(BTypeMne::BLTU)
        } else if str_eq_ic(input, "bgeu") {
            Ok(BTypeMne::BGEU)
        } else {
            Err(())
        }
    }

    /// The funct3 discriminator the architecture fixes for this mnemonic.
    pub open spec fn spec_funct3(self) -> u32 {
        match self {
            BTypeMne::BEQ => 0b000,
            BTypeMne::BNE => 0b001,
            BTypeMne::BLT => 0b100,
            BTypeMne::BGE => 0b101,
            BTypeMne::BLTU => 0b110,
            BTypeMne::BGEU => 0b111,
        }
    }

    pub fn funct3(&self) -> (r: u32)
        ensures
            r == self.spec_funct3(),
    {
        match self {
            BTypeMne::BEQ => 0b000,
            BTypeMne::BNE => 0b001,
            BTypeMne::BLT => 0b100,
            BTypeMne::BGE => 0b101,
            BTypeMne::BLTU => 0b110,
            BTypeMne::BGEU => 0b111,
        }
    }
}

#[derive(Debug, PartialEq)]
pub struct BType {
    pub mne: BTypeMne,
    pub rs1: Reg,
    pub rs2: Reg,
    pub imm: Imm,
}

/// The branch word: imm[12] | imm[10:5] | rs2 | rs1 | funct3 | imm[4:1] |
/// imm[11] | opcode, from bit 31 down to bit 0.
pub open spec fn btype_word(funct3: u32, rs1: u32, rs2: u32, imm: u32) -> u32 {
    (((imm >> 12) & 0x1) << 31) | (((imm >> 5) & 0x3F) << 25) | (rs2 << 20) | (rs1 << 15) | (
    funct3 << 12) | (((imm >> 1) & 0xF) << 8) | (((imm >> 11) & 0x1) << 7) | 0b1100011
}

impl Instruction for BType {
    open spec fn word(&self) -> u32 {
        btype_word(self.mne.spec_funct3(), self.rs1, self.rs2, self.imm)
    }

    fn translate(&self) -> (r: Vec<u8>) {
        let funct3 = self.mne.funct3();
        let opcode: u32 = 0b1100011;
        let imm12 = (self.imm >> 12) & 0x1;
        let imm10_5 = (self.imm >> 5) & 0x3F;
        let imm4_1 = (self.imm >> 1) & 0xF;
        let imm11 = (self.imm >> 11) & 0x1;
        let result: u32 = (imm12 << 31) | (imm10_5 << 25) | (self.rs2 << 20) | (self.rs1 << 15) | (
        funct3 << 12) | (imm4_1 << 8) | (imm11 << 7) | opcode;
        word_to_bytes(result)
    }
}

/// With all operand fields zero, a branch word holds only the mnemonic's
/// funct3 bits and the opcode.
pub proof fn lemma_btype_zero_operands(m: BTypeMne)
    ensures
        btype_word(m.spec_funct3(), 0, 0, 0) == (m.spec_funct3() << 12) | 0b1100011,
{
    let f = m.spec_funct3();
    assert(btype_word(f, 0, 0, 0) == (f << 12) | 0b1100011) by (bit_vector);
}

/// The immediate read back out of a branch word: the inverse of the shuffle
/// `btype_word` performs, with the implicit low zero bit restored.
pub open spec fn btype_word_imm(w: u32) -> u32 {
    (((w >> 31) & 0x1) << 12) | (((w >> 25) & 0x3F) << 5) | (((w >> 8) & 0xF) << 1) | (((w >> 7)
        & 0x1) << 11)
}

/// Splitting an even immediate that fits the 13-bit branch field into the
/// branch layout and reassembling it through the inverse shuffle yields the
/// immediate unchanged.
pub proof fn lemma_btype_imm_round_trip(funct3: u32, rs1: u32, rs2: u32, imm: u32)
    requires
        funct3 < 8,
        rs1 < 32,
        rs2 < 32,
        imm < 0x2000,
        imm & 0x1 == 0,
    ensures
        btype_word_imm(btype_word(funct3, rs1, rs2, imm)) == imm,
{
    assert(btype_word_imm(btype_word(funct3, rs1, rs2, imm)) == imm) by (bit_vector)
        requires
            funct3 < 8,
            rs1 < 32,
            rs2 < 32,
            imm < 0x2000,
            imm & 0x1 == 0,
    ;
}

} // verus!
