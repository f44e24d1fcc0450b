use assembler::btype::{BType, BTypeMne};
use assembler::instruction::Instruction;
use assembler::itype::{IType, ITypeMne};
use assembler::jtype::{JType, JTypeMne};
use assembler::rtype::{RType, RTypeMne};
use assembler::stype::{SType, STypeMne};
use assembler::utype::{UType, UTypeMne};

#[test]
fn beq_test() {
    let instruction = BType {
        mne: BTypeMne::BEQ,
        rs1: 10,
        rs2: 23,
        imm: 0b1010101010101,
    };
    let actual: Vec<u8> = instruction.translate();
    let expected: Vec<u8> = vec![0xD5, 0x75, 0x0A, 0x63];
    assert_eq!(actual, expected);
}

#[test]
fn bne_test() {
    let instruction = BType {
        mne: BTypeMne::BNE,
        rs1: 11,
        rs2: 3,
        imm: 0b0110111010101,
    };
    let actual: Vec<u8> = instruction.translate();
    let expected: Vec<u8> = vec![0x5C, 0x35, 0x9A, 0xE3];
    assert_eq!(actual, expected);
}

#[test]
fn lb_test() {
    let instruction = IType {
        mne: ITypeMne::LB,
        rd: 1,
        rs1: 1,
        imm: 1,
    };
    let actual: Vec<u8> = instruction.translate();
    let expected: Vec<u8> = vec![0x00, 0x10, 0x80, 0x83];
    assert_eq!(actual, expected);
}

#[test]
fn addi_test() {
    let instruction = IType {
        mne: ITypeMne::ADDI,
        rd: 14,
        rs1: 21,
        imm: 123,
    };
    let actual: Vec<u8> = instruction.translate();
    let expected: Vec<u8> = vec![0x07, 0xBA, 0x87, 0x13];
    assert_eq!(actual, expected);
}

#[test]
fn srai_test() {
    let instruction = IType {
        mne: ITypeMne::SRAI,
        rd: 30,
        rs1: 5,
        imm: 12,
    };
    let actual: Vec<u8> = instruction.translate();
    let expected: Vec<u8> = vec![0x40, 0xC2, 0xDF, 0x13];
    assert_eq!(actual, expected);
}

#[test]
fn jalr_test() {
    let instruction = IType {
        mne: ITypeMne::JALR,
        rd: 23,
        rs1: 3,
        imm: 564,
    };
    let actual: Vec<u8> = instruction.translate();
    let expected: Vec<u8> = vec![0x23, 0x41, 0x8B, 0xE7];
    assert_eq!(actual, expected);
}

#[test]
fn jal1_test() {
    let instruction = JType {
        mne: JTypeMne::JAL,
        rd: 1,
        imm: 0b101010101010101010101,
    };
    let actual: Vec<u8> = instruction.translate();
    let expected: Vec<u8> = vec![0xD5, 0x45, 0x50, 0xEF];
    assert_eq!(actual, expected);
}

#[test]
fn jal2_test() {
    let instruction = JType {
        mne: JTypeMne::JAL,
        rd: 21,
        imm: 0b100111010001010011011,
    };
    let actual: Vec<u8> = instruction.translate();
    let expected: Vec<u8> = vec![0xA9, 0xA3, 0xAA, 0xEF];
    assert_eq!(actual, expected);
}

#[test]
fn add_test() {
    let instruction = RType {
        mne: RTypeMne::ADD,
        rd: 1,
        rs1: 1,
        rs2: 1,
    };
    let actual: Vec<u8> = instruction.translate();
    let expected: Vec<u8> = vec![0x00, 0x10, 0x80, 0xB3];
    assert_eq!(actual, expected);
}

#[test]
fn sub_test() {
    let instruction = RType {
        mne: RTypeMne::SUB,
        rd: 31,
        rs1: 4,
        rs2: 13,
    };
    let actual: Vec<u8> = instruction.translate();
    let expected: Vec<u8> = vec![0x40, 0xD2, 0x0F, 0xB3];
    assert_eq!(actual, expected);
}

#[test]
fn sw_test() {
    let instruction = SType {
        mne: STypeMne::SW,
        rs2: 10,
        imm: 0b100101101010,
        rs1: 3,
    };
    let actual: Vec<u8> = instruction.translate();
    let expected: Vec<u8> = vec![0x96, 0xA1, 0xA5, 0x23];
    assert_eq!(actual, expected);
}

#[test]
fn sb_test() {
    let instruction = SType {
        mne: STypeMne::SB,
        rs2: 2,
        imm: 0b001010011100,
        rs1: 24,
    };
    let actual: Vec<u8> = instruction.translate();
    let expected: Vec<u8> = vec![0x28, 0x2C, 0x0E, 0x23];
    assert_eq!(actual, expected);
}

#[test]
fn lui_test() {
    let instruction = UType {
        mne: UTypeMne::LUI,
        rd: 12,
        imm: 0xDEAD,
    };
    let actual: Vec<u8> = instruction.translate();
    let expected: Vec<u8> = vec![0x0D, 0xEA, 0xD6, 0x37];
    assert_eq!(actual, expected);
}

#[test]
fn auipc_test() {
    let instruction = UType {
        mne: UTypeMne::AUIPC,
        rd: 1,
        imm: 0xD1DF2,
    };
    let actual: Vec<u8> = instruction.translate();
    let expected: Vec<u8> = vec![0xD1, 0xDF, 0x20, 0x97];
    assert_eq!(actual, expected);
}

// With all operand fields zero, each format's word holds only the mnemonic's
// opcode and funct bits.
#[test]
fn zero_operands_hold_base_bits_only() {
    let b = BType { mne: BTypeMne::BNE, rs1: 0, rs2: 0, imm: 0 };
    assert_eq!(b.translate(), vec![0x00, 0x00, 0x10, 0x63]);
    let i = IType { mne: ITypeMne::ANDI, rd: 0, rs1: 0, imm: 0 };
    assert_eq!(i.translate(), vec![0x00, 0x00, 0x70, 0x13]);
    let j = JType { mne: JTypeMne::JAL, rd: 0, imm: 0 };
    assert_eq!(j.translate(), vec![0x00, 0x00, 0x00, 0x6F]);
    let r = RType { mne: RTypeMne::SUB, rd: 0, rs1: 0, rs2: 0 };
    assert_eq!(r.translate(), vec![0x40, 0x00, 0x00, 0x33]);
    let s = SType { mne: STypeMne::SH, rs2: 0, imm: 0, rs1: 0 };
    assert_eq!(s.translate(), vec![0x00, 0x00, 0x10, 0x23]);
    let u = UType { mne: UTypeMne::AUIPC, rd: 0, imm: 0 };
    assert_eq!(u.translate(), vec![0x00, 0x00, 0x00, 0x17]);
}

// The arithmetic shift right with zero operands still sets its discriminator
// bit inside the immediate field.
#[test]
fn srai_zero_operands_keep_discriminator() {
    let i = IType { mne: ITypeMne::SRAI, rd: 0, rs1: 0, imm: 0 };
    assert_eq!(i.translate(), vec![0x40, 0x00, 0x50, 0x13]);
}

// Reassembling a branch word's immediate through the inverse shuffle yields
// the immediate unchanged.
#[test]
fn branch_imm_survives_shuffle() {
    let imm: u32 = 0b1010101010100;
    let b = BType { mne: BTypeMne::BEQ, rs1: 7, rs2: 9, imm };
    let bytes = b.translate();
    let w = u32::from_be_bytes([bytes[0], bytes[1], bytes[2], bytes[3]]);
    let back = (((w >> 31) & 0x1) << 12) | (((w >> 25) & 0x3F) << 5) | (((w >> 8) & 0xF) << 1)
        | (((w >> 7) & 0x1) << 11);
    assert_eq!(back, imm);
}

// Reassembling a jump word's immediate through the inverse shuffle yields
// the immediate unchanged.
#[test]
fn jump_imm_survives_shuffle() {
    let imm: u32 = 0b100111010001010011010;
    let j = JType { mne: JTypeMne::JAL, rd: 3, imm };
    let bytes = j.translate();
    let w = u32::from_be_bytes([bytes[0], bytes[1], bytes[2], bytes[3]]);
    let back = (((w >> 31) & 0x1) << 20) | (((w >> 21) & 0x3FF) << 1) | (((w >> 20) & 0x1) << 11)
        | (((w >> 12) & 0xFF) << 12);
    assert_eq!(back, imm);
}

// The store word's split immediate rejoins to the original value.
#[test]
fn store_imm_survives_split() {
    let imm: u32 = 0b101101001011;
    let s = SType { mne: STypeMne::SW, rs2: 4, imm, rs1: 6 };
    let bytes = s.translate();
    let w = u32::from_be_bytes([bytes[0], bytes[1], bytes[2], bytes[3]]);
    let back = (((w >> 25) & 0x7F) << 5) | ((w >> 7) & 0x1F);
    assert_eq!(back, imm);
}

// The unsigned loads carry distinct funct3 values: load halfword unsigned is
// 0b101, one past load byte unsigned's 0b100.
#[test]
fn lhu_test() {
    let instruction = IType {
        mne: ITypeMne::LHU,
        rd: 9,
        rs1: 18,
        imm: 5,
    };
    let actual: Vec<u8> = instruction.translate();
    let expected: Vec<u8> = vec![0x00, 0x59, 0x54, 0x83];
    assert_eq!(actual, expected);
    let lbu = IType {
        mne: ITypeMne::LBU,
        rd: 9,
        rs1: 18,
        imm: 5,
    };
    assert_eq!(lbu.translate(), vec![0x00, 0x59, 0x44, 0x83]);
}
