use assembler::btype::{BType, BTypeMne};
use assembler::errors::AsmError;
use assembler::instruction::Instruction;
use assembler::instructions::{classify, generate_instruction, FormatFamily, InstructionData};
use assembler::itype::{IType, ITypeMne};
use assembler::jtype::{JType, JTypeMne};
use assembler::parser::str_to_reg;
use assembler::rtype::{RType, RTypeMne};
use assembler::stype::{SType, STypeMne};
use assembler::utype::{UType, UTypeMne};

#[test]
fn btype_test() {
    let actual = generate_instruction(InstructionData {
        mne: String::from("beq"),
        rd: None,
        rs1: Some(21),
        rs2: Some(12),
        imm: Some(1234),
    });

    let expected = BType {
        mne: BTypeMne::BEQ,
        rs1: 21,
        rs2: 12,
        imm: 1234,
    };
    assert_eq!(expected.translate(), actual.translate())
}

#[test]
fn itype_test() {
    let actual = generate_instruction(InstructionData {
        mne: String::from("lb"),
        rd: Some(12),
        rs1: Some(23),
        rs2: None,
        imm: Some(1234),
    });

    let expected = IType {
        mne: ITypeMne::LB,
        rd: 12,
        rs1: 23,
        imm: 1234,
    };
    assert_eq!(expected.translate(), actual.translate())
}

#[test]
fn jtype_test() {
    let actual = generate_instruction(InstructionData {
        mne: String::from("jal"),
        rd: Some(12),
        rs1: None,
        rs2: None,
        imm: Some(1234),
    });

    let expected = JType {
        mne: JTypeMne::JAL,
        rd: 12,
        imm: 1234,
    };
    assert_eq!(expected.translate(), actual.translate())
}

#[test]
fn rtype_test() {
    let actual = generate_instruction(InstructionData {
        mne: String::from("add"),
        rd: Some(12),
        rs1: Some(13),
        rs2: Some(14),
        imm: None,
    });

    let expected = RType {
        mne: RTypeMne::ADD,
        rd: 12,
        rs1: 13,
        rs2: 14,
    };
    assert_eq!(expected.translate(), actual.translate())
}

#[test]
fn stype_test() {
    let actual = generate_instruction(InstructionData {
        mne: String::from("sw"),
        rd: None,
        rs1: Some(13),
        rs2: Some(14),
        imm: Some(1234),
    });

    let expected = SType {
        mne: STypeMne::SW,
        rs1: 13,
        rs2: 14,
        imm: 1234,
    };
    assert_eq!(expected.translate(), actual.translate())
}

#[test]
fn utype_test() {
    let actual = generate_instruction(InstructionData {
        mne: String::from("lui"),
        rd: Some(12),
        rs1: None,
        rs2: None,
        imm: Some(1234),
    });

    let expected = UType {
        mne: UTypeMne::LUI,
        rd: 12,
        imm: 1234,
    };
    assert_eq!(expected.translate(), actual.translate())
}

#[test]
fn classify_covers_every_family() {
    assert_eq!(classify("beq"), Ok(FormatFamily::Branch));
    assert_eq!(classify("JAL"), Ok(FormatFamily::Jump));
    assert_eq!(classify("jalr"), Ok(FormatFamily::JumpRegister));
    assert_eq!(classify("lhu"), Ok(FormatFamily::Load));
    assert_eq!(classify("sltiu"), Ok(FormatFamily::RegisterImmediate));
    assert_eq!(classify("Sra"), Ok(FormatFamily::RegisterRegister));
    assert_eq!(classify("sb"), Ok(FormatFamily::Store));
    assert_eq!(classify("auipc"), Ok(FormatFamily::UpperImmediate));
}

#[test]
fn classify_rejects_unknown_mnemonics() {
    assert_eq!(classify("mov"), Err(AsmError::UnknownMnemonic));
    assert_eq!(classify(""), Err(AsmError::UnknownMnemonic));
    assert_eq!(classify("addi1"), Err(AsmError::UnknownMnemonic));
}

#[test]
fn mnemonics_match_ignoring_case() {
    assert_eq!(BTypeMne::from_str("BgeU"), Ok(BTypeMne::BGEU));
    assert_eq!(ITypeMne::from_str("SLTIU"), Ok(ITypeMne::SLTIU));
    assert_eq!(RTypeMne::from_str("Sub"), Ok(RTypeMne::SUB));
    assert_eq!(STypeMne::from_str("sH"), Ok(STypeMne::SH));
    assert_eq!(UTypeMne::from_str("LUI"), Ok(UTypeMne::LUI));
    assert_eq!(JTypeMne::from_str("jAl"), Ok(JTypeMne::JAL));
    assert_eq!(BTypeMne::from_str("beqz"), Err(()));
}

#[test]
fn register_names_resolve_to_indices() {
    assert_eq!(str_to_reg("zero"), Some(0));
    assert_eq!(str_to_reg("ra"), Some(1));
    assert_eq!(str_to_reg("sp"), Some(2));
    assert_eq!(str_to_reg("fp"), Some(8));
    assert_eq!(str_to_reg("s0"), Some(8));
    assert_eq!(str_to_reg("a7"), Some(17));
    assert_eq!(str_to_reg("t6"), Some(31));
    assert_eq!(str_to_reg("31"), Some(31));
    assert_eq!(str_to_reg("0"), Some(0));
}

#[test]
fn register_names_are_case_sensitive_and_bounded() {
    assert_eq!(str_to_reg("ZERO"), None);
    assert_eq!(str_to_reg("32"), None);
    assert_eq!(str_to_reg("x5"), None);
    assert_eq!(str_to_reg(""), None);
}
