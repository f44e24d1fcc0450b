//! Instruction descriptors as the parser hands them over, their format
//! classification, and the step from a descriptor to an encodable
//! instruction.

use vstd::prelude::*;
use crate::btype::{BType, BTypeMne};
use crate::errors::AsmError;
use crate::instruction::Instruction;
use crate::itype::{IType, ITypeMne};
use crate::jtype::{JType, JTypeMne};
use crate::rtype::{RType, RTypeMne};
use crate::stype::{SType, STypeMne};
use crate::types::{Imm, Reg};
use crate::utype::{UType, UTypeMne};

verus! {

/// The ghost image of an instruction descriptor: the mnemonic as a character
/// sequence, the operand fields as they are.
pub struct InstructionDataV {
    pub mne: Seq<char>,
    pub rd: Option<Reg>,
    pub rs1: Option<Reg>,
    pub rs2: Option<Reg>,
    pub imm: Option<Imm>,
}

/// A parsed instruction: the mnemonic as written in the source, and the
/// subset of operand fields its format requires.
#[derive(Debug, PartialEq, Clone)]
pub struct InstructionData {
    pub mne: String,
    pub rd: Option<Reg>,
    pub rs1: Option<Reg>,
    pub rs2: Option<Reg>,
    pub imm: Option<Imm>,
}

impl View for InstructionData {
    type V = InstructionDataV;

    open spec fn view(&self) -> InstructionDataV {
        InstructionDataV {
            mne: self.mne@,
            rd: self.rd,
            rs1: self.rs1,
            rs2: self.rs2,
            imm: self.imm,
        }
    }
}

/// The format families of the instruction set; each fixes which operand
/// fields an instruction carries and how its word is laid out.
#[derive(Debug, PartialEq, Eq, Structural, Clone, Copy)]
pub enum FormatFamily {
    RegisterRegister,
    RegisterImmediate,
    Load,
    Store,
    Branch,
    Jump,
    JumpRegister,
    UpperImmediate,
}

/// The family a mnemonic belongs to, ignoring ASCII case; unknown strings
/// classify to no family.
pub open spec fn spec_classify(s: Seq<char>) -> Result<FormatFamily, AsmError> {
    if BTypeMne::spec_from_str(s) is Ok {
        Ok(FormatFamily::Branch)
    } else if JTypeMne::spec_from_str(s) is Ok {
        Ok(FormatFamily::Jump)
    } else if RTypeMne::spec_from_str(s) is Ok {
        Ok(FormatFamily::RegisterRegister)
    } else if STypeMne::spec_from_str(s) is Ok {
        Ok(FormatFamily::Store)
    } else if UTypeMne::spec_from_str(s) is Ok {
        Ok(FormatFamily::UpperImmediate)
    } else {
        match ITypeMne::spec_from_str(s) {
            Ok(m) => Ok(
                match m {
                    ITypeMne::JALR => FormatFamily::JumpRegister,
                    ITypeMne::LB | ITypeMne::LH | ITypeMne::LW | ITypeMne::LBU | ITypeMne::LHU
                        => FormatFamily::Load,
                    _ => FormatFamily::RegisterImmediate,
                },
            ),
            Err(()) => Err(AsmError::UnknownMnemonic),
        }
    }
}

/// Maps a mnemonic to its format family, ignoring ASCII case; fails with
/// `UnknownMnemonic` for every other string.
pub fn classify(mnemonic: &str) -> (r: Result<FormatFamily, AsmError>)
    ensures
        r == spec_classify(mnemonic@),
{
    if BTypeMne::from_str(mnemonic).is_ok() {
        Ok(FormatFamily::Branch)
    } else if JTypeMne::from_str(mnemonic).is_ok() {
        Ok(FormatFamily::Jump)
    } else if RTypeMne::from_str(mnemonic).is_ok() {
        Ok(FormatFamily::RegisterRegister)
    } else if STypeMne::from_str(mnemonic).is_ok() {
        Ok(FormatFamily::Store)
    } else if UTypeMne::from_str(mnemonic).is_ok() {
        Ok(FormatFamily::UpperImmediate)
    } else {
        match ITypeMne::from_str(mnemonic) {
            Ok(m) => Ok(
                match m {
                    ITypeMne::JALR => FormatFamily::JumpRegister,
                    ITypeMne::LB | ITypeMne::LH | ITypeMne::LW | ITypeMne::LBU | ITypeMne::LHU
                        => FormatFamily::Load,
                    _ => FormatFamily::RegisterImmediate,
                },
            ),
            Err(()) => Err(AsmError::UnknownMnemonic),
        }
    }
}

/// A fully formed instruction of any of the six formats.
#[derive(Debug, PartialEq)]
pub enum Instr {
    B(BType),
    I(IType),
    J(JType),
    R(RType),
    S(SType),
    U(UType),
}

impl Instruction for Instr {
    open spec fn word(&self) -> u32 {
        match self {
            Instr::B(x) => x.word(),
            Instr::I(x) => x.word(),
            Instr::J(x) => x.word(),
            Instr::R(x) => x.word(),
            Instr::S(x) => x.word(),
            Instr::U(x) => x.word(),
        }
    }

    fn translate(&self) -> (r: Vec<u8>) {
        match self {
            Instr::B(x) => x.translate(),
            Instr::I(x) => x.translate(),
            Instr::J(x) => x.translate(),
            Instr::R(x) => x.translate(),
            Instr::S(x) => x.translate(),
            Instr::U(x) => x.translate(),
        }
    }
}

/// The instruction a descriptor denotes: its mnemonic's format populated
/// with the descriptor's fields. None when the mnemonic is unknown or a
/// field the format requires is absent.
pub open spec fn spec_instr_of(d: InstructionDataV) -> Option<Instr> {
    match BTypeMne::spec_from_str(d.mne) {
        Ok(m) => match (d.rs1, d.rs2, d.imm) {
            (Some(rs1), Some(rs2), Some(imm)) => Some(Instr::B(BType { mne: m, rs1, rs2, imm })),
            _ => None,
        },
        Err(()) => match ITypeMne::spec_from_str(d.mne) {
            Ok(m) => match (d.rd, d.rs1, d.imm) {
                (Some(rd), Some(rs1), Some(imm)) => Some(
                    Instr::I(IType { mne: m, rd, rs1, imm }),
                ),
                _ => None,
            },
            Err(()) => match JTypeMne::spec_from_str(d.mne) {
                Ok(m) => match (d.rd, d.imm) {
                    (Some(rd), Some(imm)) => Some(Instr::J(JType { mne: m, rd, imm })),
                    _ => None,
                },
                Err(()) => match RTypeMne::spec_from_str(d.mne) {
                    Ok(m) => match (d.rd, d.rs1, d.rs2) {
                        (Some(rd), Some(rs1), Some(rs2)) => Some(
                            Instr::R(RType { mne: m, rd, rs1, rs2 }),
                        ),
                        _ => None,
                    },
                    Err(()) => match STypeMne::spec_from_str(d.mne) {
                        Ok(m) => match (d.rs1, d.rs2, d.imm) {
                            (Some(rs1), Some(rs2), Some(imm)) => Some(
                                Instr::S(SType { mne: m, rs1, rs2, imm }),
                            ),
                            _ => None,
                        },
                        Err(()) => match UTypeMne::spec_from_str(d.mne) {
                            Ok(m) => match (d.rd, d.imm) {
                                (Some(rd), Some(imm)) => Some(Instr::U(UType { mne: m, rd, imm })),
                                _ => None,
                            },
                            Err(()) => None,
                        },
                    },
                },
            },
        },
    }
}

/// A descriptor is well formed when its mnemonic is known and exactly the
/// fields of the mnemonic's format are populated.
pub open spec fn data_well_formed(d: InstructionDataV) -> bool {
    spec_instr_of(d) is Some
}

/// Builds the instruction a well-formed descriptor denotes. A descriptor
/// whose fields do not satisfy its mnemonic's format is a programming error
/// inside the pipeline, kept out by the precondition, never a recoverable
/// failure.
pub fn generate_instruction(data: InstructionData) -> (r: Instr)
    requires
        data_well_formed(data@),
    ensures
        Some(r) == spec_instr_of(data@),
{
    match instr_of(&data) {
        Some(ins) => ins,
        None => {
            proof {
                assert(false);
            }
            Instr::J(JType { mne: JTypeMne::JAL, rd: 0, imm: 0 })
        },
    }
}

} // verus!

verus! {

/// The instruction a descriptor denotes, if any: no precondition, `None`
/// exactly where the descriptor is ill formed.
pub fn instr_of(data: &InstructionData) -> (r: Option<Instr>)
    ensures
        r == spec_instr_of(data@),
{
    match BTypeMne::from_str(data.mne.as_str()) {
        Ok(m) => match (data.rs1, data.rs2, data.imm) {
            (Some(rs1), Some(rs2), Some(imm)) => Some(Instr::B(BType { mne: m, rs1, rs2, imm })),
            _ => None,
        },
        Err(()) => match ITypeMne::from_str(data.mne.as_str()) {
            Ok(m) => match (data.rd, data.rs1, data.imm) {
                (Some(rd), Some(rs1), Some(imm)) => Some(Instr::I(IType { mne: m, rd, rs1, imm })),
                _ => None,
            },
            Err(()) => match JTypeMne::from_str(data.mne.as_str()) {
                Ok(m) => match (data.rd, data.imm) {
                    (Some(rd), Some(imm)) => Some(Instr::J(JType { mne: m, rd, imm })),
                    _ => None,
                },
                Err(()) => match RTypeMne::from_str(data.mne.as_str()) {
                    Ok(m) => match (data.rd, data.rs1, data.rs2) {
                        (Some(rd), Some(rs1), Some(rs2)) => Some(
                            Instr::R(RType { mne: m, rd, rs1, rs2 }),
                        ),
                        _ => None,
                    },
                    Err(()) => match STypeMne::from_str(data.mne.as_str()) {
                        Ok(m) => match (data.rs1, data.rs2, data.imm) {
                            (Some(rs1), Some(rs2), Some(imm)) => Some(
                                Instr::S(SType { mne: m, rs1, rs2, imm }),
                            ),
                            _ => None,
                        },
                        Err(()) => match UTypeMne::from_str(data.mne.as_str()) {
                            Ok(m) => match (data.rd, data.imm) {
                                (Some(rd), Some(imm)) => Some(Instr::U(UType { mne: m, rd, imm })),
                                _ => None,
                            },
                            Err(()) => None,
                        },
                    },
                },
            },
        },
    }
}

} // verus!
