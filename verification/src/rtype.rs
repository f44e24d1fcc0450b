//! Register-register arithmetic: the R format, discriminated by funct3 and
//! funct7.

use vstd::prelude::*;
use crate::chars::{eq_ignore_case, str_eq_ic};
use crate::instruction::Instruction;
use crate::instruction::word_to_bytes;
use crate::types::Reg;

verus! {

#[derive(Debug, PartialEq, Eq, Structural, Clone, Copy)]
pub enum RTypeMne {
    ADD,
    SUB,
    SLL,
    SLT,
    SLTU,
    XOR,
    SRL,
    SRA,
    OR,
    AND,
}

impl RTypeMne {
    /// Which R-format mnemonic a string names, ignoring ASCII case.
    pub open spec fn spec_from_str(s: Seq<char>) -> Result<RTypeMne, ()> {
        if eq_ignore_case(s, "add"@) {
            Ok(RTypeMne::ADD)
        } else if eq_ignore_case(s, "sub"@) {
            Ok(RTypeMne::SUB)
        } else if eq_ignore_case(s, "sll"@) {
            Ok(RTypeMne::SLL)
        } else if eq_ignore_case(s, "slt"@) {
            Ok(RTypeMne::SLT)
        } else if eq_ignore_case(s, "sltu"@) {
            Ok(RTypeMne::SLTU)
        } else if eq_ignore_case(s, "xor"@) {
            Ok(RTypeMne::XOR)
        } else if eq_ignore_case(s, "srl"@) {
            Ok(RTypeMne::SRL)
        } else if eq_ignore_case(s, "sra"@) {
            Ok(RTypeMne::SRA)
        } else if eq_ignore_case(s, "or"@) {
            Ok(RTypeMne::OR)
        } else if eq_ignore_case(s, "and"@) {
            Ok(RTypeMne::AND)
        } else {
            Err(())
        }
    }

    pub fn from_str(input: &str) -> (r: Result<RTypeMne, ()>)
        ensures
            r == Self::spec_from_str(input@),
    {
        if str_eq_ic(input, "add") {
            Ok(RTypeMne::ADD)
        } else if str_eq_ic(input, "sub") {
            Ok(RTypeMne::SUB)
        } else if str_eq_ic(input, "sll") {
            Ok(RTypeMne::SLL)
        } else if str_eq_ic(input, "slt") {
            Ok(RTypeMne::SLT)
        } else if str_eq_ic(input, "sltu") {
            Ok(RTypeMne::SLTU)
        } else if str_eq_ic(input, "xor") {
            Ok(RTypeMne::XOR)
        } else if str_eq_ic(input, "srl") {
            Ok(RTypeMne::SRL)
        } else if str_eq_ic(input, "sra") {
            Ok(RTypeMne::SRA)
        } else if str_eq_ic(input, "or") {
            Ok(RTypeMne::OR)
        } else if str_eq_ic(input, "and") {
            Ok(RTypeMne::AND)
        } else {
            Err(())
        }
    }

    /// The funct7 discriminator: subtraction and the arithmetic shift right
    /// set bit 5, every other member leaves funct7 zero.
    pub open spec fn spec_funct7(self) -> u32 {
        match self {
            RTypeMne::SRA | RTypeMne::SUB => 0x20,
            _ => 0,
        }
    }

    pub fn funct7(&self) -> (r: u32)
        ensures
            r == self.spec_funct7(),
    {
        match self {
            RTypeMne::SRA | RTypeMne::SUB => 0x20,
            _ => 0,
        }
    }

    /// The funct3 discriminator the architecture fixes for this mnemonic.
    pub open spec fn spec_funct3(self) -> u32 {
        match self {
            RTypeMne::ADD => 0b000,
            RTypeMne::SUB => 0b000,
            RTypeMne::SLL => 0b001,
            RTypeMne::SLT => 0b010,
            RTypeMne::SLTU => 0b011,
            RTypeMne::XOR => 0b100,
            RTypeMne::SRL => 0b101,
            RTypeMne::SRA => 0b101,
            RTypeMne::OR => 0b110,
            RTypeMne::AND => 0b111,
        }
    }

    pub fn funct3(&self) -> (r: u32)
        ensures
            r == self.spec_funct3(),
    {
        match self {
            RTypeMne::ADD => 0b000,
            RTypeMne::SUB => 0b000,
            RTypeMne::SLL => 0b001,
            RTypeMne::SLT => 0b010,
            RTypeMne::SLTU => 0b011,
            RTypeMne::XOR => 0b100,
            RTypeMne::SRL => 0b101,
            RTypeMne::SRA => 0b101,
            RTypeMne::OR => 0b110,
            RTypeMne::AND => 0b111,
        }
    }
}

#[derive(Debug, PartialEq)]
pub struct RType {
    pub mne: RTypeMne,
    pub rd: Reg,
    pub rs1: Reg,
    pub rs2: Reg,
}

/// The R word: funct7 | rs2 | rs1 | funct3 | rd | opcode, from bit 31 down to
/// bit 0.
pub open spec fn rtype_word(funct7: u32, funct3: u32, rd: u32, rs1: u32, rs2: u32) -> u32 {
    (funct7 << 25) | (rs2 << 20) | (rs1 << 15) | (funct3 << 12) | (rd << 7) | 0b0110011
}

impl Instruction for RType {
    open spec fn word(&self) -> u32 {
        rtype_word(self.mne.spec_funct7(), self.mne.spec_funct3(), self.rd, self.rs1, self.rs2)
    }

    fn translate(&self) -> (r: Vec<u8>) {
        let opcode: u32 = 0b0110011;
        let funct7 = self.mne.funct7();
        let funct3 = self.mne.funct3();
        let result: u32 = (funct7 << 25) | (self.rs2 << 20) | (self.rs1 << 15) | (funct3 << 12) | (
        self.rd << 7) | opcode;
        word_to_bytes(result)
    }
}

/// With all operand fields zero, an R word holds only the mnemonic's funct7
/// and funct3 bits and the opcode.
pub proof fn lemma_rtype_zero_operands(m: RTypeMne)
    ensures
        rtype_word(m.spec_funct7(), m.spec_funct3(), 0, 0, 0) == (m.spec_funct7() << 25) | (
        m.spec_funct3() << 12) | 0b0110011,
{
    let f7 = m.spec_funct7();
    let f3 = m.spec_funct3();
    assert(rtype_word(f7, f3, 0, 0, 0) == (f7 << 25) | (f3 << 12) | 0b0110011) by (bit_vector);
}

} // verus!
