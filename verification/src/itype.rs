//! Register-immediate arithmetic, loads, and register jumps: the I format,
//! with a 12-bit immediate placed in the word's top bits.

use vstd::prelude::*;
use crate::chars::{eq_ignore_case, str_eq_ic};
use crate::instruction::Instruction;
use crate::instruction::word_to_bytes;
use crate::types::{Imm, Reg};

verus! {

#[derive(Debug, PartialEq, Eq, Structural, Clone, Copy)]
pub enum ITypeMne {
    JALR,
    LB,
    LH,
    LW,
    LBU,
    LHU,
    ADDI,
    SLTI,
    SLTIU,
    XORI,
    ORI,
    ANDI,
    SLLI,
    SRLI,
    SRAI,
}

impl ITypeMne {
    /// Which I-format mnemonic a string names, ignoring ASCII case.
    pub open spec fn spec_from_str(s: Seq<char>) -> Result<ITypeMne, ()> {
        if eq_ignore_case(s, "jalr"@) {
            Ok(ITypeMne::JALR)
        } else if eq_ignore_case(s, "lb"@) {
            Ok(ITypeMne::LB)
        } else if eq_ignore_case(s, "lh"@) {
            Ok(ITypeMne::LH)
        } else if eq_ignore_case(s, "lw"@) {
            Ok(ITypeMne::LW)
        } else if eq_ignore_case(s, "lbu"@) {
            Ok(ITypeMne::LBU)
        } else if eq_ignore_case(s, "lhu"@) {
            Ok(ITypeMne::LHU)
        } else if eq_ignore_case(s, "addi"@) {
            Ok(ITypeMne::ADDI)
        } else if eq_ignore_case(s, "slti"@) {
            Ok(ITypeMne::SLTI)
        } else if eq_ignore_case(s, "sltiu"@) {
            Ok(ITypeMne::SLTIU)
        } else if eq_ignore_case(s, "xori"@) {
            Ok(ITypeMne::XORI)
        } else if eq_ignore_case(s, "ori"@) {
            Ok(ITypeMne::ORI)
        } else if eq_ignore_case(s, "andi"@) {
            Ok(ITypeMne::ANDI)
        } else if eq_ignore_case(s, "slli"@) {
            Ok(ITypeMne::SLLI)
        } else if eq_ignore_case(s, "srli"@) {
            Ok(ITypeMne::SRLI)
        } else if eq_ignore_case(s, "srai"@) {
            Ok(ITypeMne::SRAI)
        } else {
            Err(())
        }
    }

    pub fn from_str(input: &str) -> (r: Result<ITypeMne, ()>)
        ensures
            r == Self::spec_from_str(input@),
    {
        if str_eq_ic(input, "jalr") {
            Ok(ITypeMne::JALR)
        } else if str_eq_ic(input, "lb") {
            Ok(ITypeMne::LB)
        } else if str_eq_ic(input, "lh") {
            Ok(ITypeMne::LH)
        } else if str_eq_ic(input, "lw") {
            Ok(ITypeMne::LW)
        } else if str_eq_ic(input, "lbu") {
            Ok(ITypeMne::LBU)
        } else if str_eq_ic(input, "lhu") {
            Ok(ITypeMne::LHU)
        } else if str_eq_ic(input, "addi") {
            Ok(ITypeMne::ADDI)
        } else if str_eq_ic(input, "slti") {
            Ok(ITypeMne::SLTI)
        } else if str_eq_ic(input, "sltiu") {
            Ok(ITypeMne::SLTIU)
        } else if str_eq_ic(input, "xori") {
            Ok(ITypeMne::XORI)
        } else if str_eq_ic(input, "ori") {
            Ok(ITypeMne::ORI)
        } else if str_eq_ic(input, "andi") {
            Ok(ITypeMne::ANDI)
        } else if str_eq_ic(input, "slli") {
            Ok(ITypeMne::SLLI)
        } else if str_eq_ic(input, "srli") {
            Ok(ITypeMne::SRLI)
        } else if str_eq_ic(input, "srai") {
            Ok(ITypeMne::SRAI)
        } else {
            Err(())
        }
    }

    /// The opcode the architecture fixes for this mnemonic: register jumps,
    /// loads, and immediate arithmetic use three distinct opcodes.
    pub open spec fn spec_opcode(self) -> u32 {
        match self {
            ITypeMne::JALR => 0x67,
            ITypeMne::LB | ITypeMne::LH | ITypeMne::LW | ITypeMne::LBU | ITypeMne::LHU => 0x03,
            _ => 0x13,
        }
    }

    pub fn opcode(&self) -> (r: u32)
        ensures
            r == self.spec_opcode(),
    {
        match self {
            ITypeMne::JALR => 0x67,
            ITypeMne::LB | ITypeMne::LH | ITypeMne::LW | ITypeMne::LBU | ITypeMne::LHU => 0x03,
            _ => 0x13,
        }
    }

    /// The funct3 discriminator the architecture fixes for this mnemonic.
    pub open spec fn spec_funct3(self) -> u32 {
        match self {
            ITypeMne::JALR => 0b000,
            ITypeMne::LB => 0b000,
            ITypeMne::LH => 0b001,
            ITypeMne::LW => 0b010,
            ITypeMne::LBU => 0b100,
            ITypeMne::LHU => 0b101,
            ITypeMne::ADDI => 0b000,
            ITypeMne::SLTI => 0b010,
            ITypeMne::SLTIU => 0b011,
            ITypeMne::XORI => 0b100,
            ITypeMne::ORI => 0b110,
            ITypeMne::ANDI => 0b111,
            ITypeMne::SLLI => 0b001,
            ITypeMne::SRLI => 0b101,
            ITypeMne::SRAI => 0b101,
        }
    }

    pub fn funct3(&self) -> (r: u32)
        ensures
            r == self.spec_funct3(),
    {
        match self {
            ITypeMne::JALR => 0b000,
            ITypeMne::LB => 0b000,
            ITypeMne::LH => 0b001,
            ITypeMne::LW => 0b010,
            ITypeMne::LBU => 0b100,
            ITypeMne::LHU => 0b101,
            ITypeMne::ADDI => 0b000,
            ITypeMne::SLTI => 0b010,
            ITypeMne::SLTIU => 0b011,
            ITypeMne::XORI => 0b100,
            ITypeMne::ORI => 0b110,
            ITypeMne::ANDI => 0b111,
            ITypeMne::SLLI => 0b001,
            ITypeMne::SRLI => 0b101,
            ITypeMne::SRAI => 0b101,
        }
    }

    /// The bit the arithmetic-shift-right mnemonic sets inside the immediate
    /// field to tell it apart from the logical shift, which shares its opcode
    /// and funct3.
    pub open spec fn spec_imm_discriminator(self) -> u32 {
        if self is SRAI {
            0x400
        } else {
            0
        }
    }
}

#[derive(Debug, PartialEq)]
pub struct IType {
    pub mne: ITypeMne,
    pub rd: Reg,
    pub rs1: Reg,
    pub imm: Imm,
}

impl IType {
    /// The immediate as placed in the word: the arithmetic shift right ORs
    /// its discriminator bit into the field.
    pub open spec fn spec_imm_eff(&self) -> u32 {
        if self.mne is SRAI {
            self.imm | 0x400
        } else {
            self.imm
        }
    }
}

/// The I word: imm[11:0] | rs1 | funct3 | rd | opcode, from bit 31 down to
/// bit 0.
pub open spec fn itype_word(funct3: u32, opcode: u32, rd: u32, rs1: u32, imm: u32) -> u32 {
    (imm << 20) | (rs1 << 15) | (funct3 << 12) | (rd << 7) | opcode
}

impl Instruction for IType {
    open spec fn word(&self) -> u32 {
        itype_word(
            self.mne.spec_funct3(),
            self.mne.spec_opcode(),
            self.rd,
            self.rs1,
            self.spec_imm_eff(),
        )
    }

    fn translate(&self) -> (r: Vec<u8>) {
        let opcode = self.mne.opcode();
        let funct3 = self.mne.funct3();
        let imm = match self.mne {
            ITypeMne::SRAI => self.imm | 0x400,
            _ => self.imm,
        };
        let result: u32 = (imm << 20) | (self.rs1 << 15) | (funct3 << 12) | (self.rd << 7)
            | opcode;
        word_to_bytes(result)
    }
}

/// With all operand fields zero, an I word holds only the mnemonic's funct3
/// bits, its opcode, and (for the arithmetic shift right) its immediate-field
/// discriminator bit.
pub proof fn lemma_itype_zero_operands(m: ITypeMne)
    ensures
        itype_word(m.spec_funct3(), m.spec_opcode(), 0, 0, m.spec_imm_discriminator()) == (
        m.spec_imm_discriminator() << 20) | (m.spec_funct3() << 12) | m.spec_opcode(),
{
    let f = m.spec_funct3();
    let o = m.spec_opcode();
    let d = m.spec_imm_discriminator();
    assert(itype_word(f, o, 0, 0, d) == (d << 20) | (f << 12) | o) by (bit_vector);
}

/// The immediate read back out of an I word.
pub open spec fn itype_word_imm(w: u32) -> u32 {
    (w >> 20) & 0xFFF
}

/// An immediate that fits the 12-bit field survives placement in the I word
/// unchanged.
pub proof fn lemma_itype_imm_round_trip(funct3: u32, opcode: u32, rd: u32, rs1: u32, imm: u32)
    requires
        funct3 < 8,
        opcode < 128,
        rd < 32,
        rs1 < 32,
        imm < 0x1000,
    ensures
        itype_word_imm(itype_word(funct3, opcode, rd, rs1, imm)) == imm,
{
    assert(itype_word_imm(itype_word(funct3, opcode, rd, rs1, imm)) == imm) by (bit_vector)
        requires
            funct3 < 8,
            opcode < 128,
            rd < 32,
            rs1 < 32,
            imm < 0x1000,
    ;
}

} // verus!
