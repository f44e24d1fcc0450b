use assembler::datadir::{
    num_to_bytes, parse_dataline, parse_datalist, parse_datasize, parse_string, DataRuleOut,
    ListOut,
};
use assembler::errors::AsmError;
use assembler::instructions::InstructionData;
use assembler::parser::{
    parse_branch_instr, parse_branch_pseudo_instr, parse_imm_instr, parse_jal_pseudo_instr,
    parse_jalr_instr, parse_load_instr, parse_reg_instr, parse_store_instr, parse_text,
    parse_uj_instr, Data, DataSize, Text,
};

#[test]
fn parse_load_instr_test1() {
    let (leftover, result) = parse_load_instr("label: lw s1, 123(s2)").unwrap();
    let _ = leftover;
    assert_eq!(
        result,
        Text {
            instruction: InstructionData {
                mne: "lw".to_string(),
                rs1: Some(18),
                rs2: None,
                rd: Some(9),
                imm: Some(123),
            },
            label: Some("label".to_string()),
            label_dst: None,
        }
    );
}

#[test]
fn parse_load_instr_test2() {
    let (leftover, result) = parse_load_instr("lb s1, 0x1b3(s2)\n").unwrap();
    let _ = leftover;
    assert_eq!(
        result,
        Text {
            instruction: InstructionData {
                mne: "lb".to_string(),
                rs1: Some(18),
                rs2: None,
                rd: Some(9),
                imm: Some(0x1b3),
            },
            label: None,

            label_dst: None,
        }
    );
}

#[test]
fn parse_load_instr_test3() {
    let (leftover, result) = parse_load_instr("\t label: \n lhu s1, 0b101 (  s2 )  \n").unwrap();
    let _ = leftover;
    assert_eq!(
        result,
        Text {
            instruction: InstructionData {
                mne: "lhu".to_string(),
                rs1: Some(18),
                rs2: None,
                rd: Some(9),
                imm: Some(0b101),
            },
            label: Some("label".to_string()),

            label_dst: None,
        }
    );
}

#[test]
fn parse_store_instr_test1() {
    let (leftover, result) = parse_store_instr("label: sw s1, 123(s2)").unwrap();
    let _ = leftover;
    assert_eq!(
        result,
        Text {
            instruction: InstructionData {
                mne: "sw".to_string(),
                rs1: Some(18),
                rs2: Some(9),
                rd: None,
                imm: Some(123),
            },
            label: Some("label".to_string()),

            label_dst: None,
        }
    );
}

#[test]
fn parse_branch_instr_test1() {
    let (leftover, result) = parse_branch_instr("label: beq s1, s2, 123").unwrap();
    let _ = leftover;
    assert_eq!(
        result,
        Text {
            instruction: InstructionData {
                mne: "beq".to_string(),
                rs1: Some(9),
                rs2: Some(18),
                rd: None,
                imm: Some(123),
            },
            label: Some("label".to_string()),
            label_dst: None,
        }
    );
}

#[test]
fn parse_branch_instr_test2() {
    let (leftover, result) = parse_branch_instr("\tblt s1, s2, 0xa23\n").unwrap();
    let _ = leftover;
    assert_eq!(
        result,
        Text {
            instruction: InstructionData {
                mne: "blt".to_string(),
                rs1: Some(9),
                rs2: Some(18),
                rd: None,
                imm: Some(0xA23),
            },
            label: None,
            label_dst: None,
        }
    );
}

#[test]
fn parse_branch_pseudo_instr_test1() {
    let (leftover, result) = parse_branch_pseudo_instr("label:\n blt s1, s2, label2\n").unwrap();
    let _ = leftover;
    assert_eq!(
        result,
        Text {
            instruction: InstructionData {
                mne: "blt".to_string(),
                rs1: Some(9),
                rs2: Some(18),
                rd: None,
                imm: None,
            },
            label: Some("label".to_string()),
            label_dst: Some("label2".to_string()),
        }
    );
}

#[test]
fn parse_branch_pseudo_instr_test2() {
    let (leftover, result) = parse_branch_pseudo_instr("bne zero, s2, label2").unwrap();
    let _ = leftover;
    assert_eq!(
        result,
        Text {
            instruction: InstructionData {
                mne: "bne".to_string(),
                rs1: Some(0),
                rs2: Some(18),
                rd: None,
                imm: None,
            },
            label: None,
            label_dst: Some("label2".to_string()),
        }
    );
}

#[test]
fn parse_imm_instr_test1() {
    let (leftover, result) = parse_imm_instr("hello: addi zero, ra, 0b101010").unwrap();
    let _ = leftover;
    assert_eq!(
        result,
        Text {
            instruction: InstructionData {
                mne: "addi".to_string(),
                rs1: Some(1),
                rs2: None,
                rd: Some(0),
                imm: Some(0b101010),
            },
            label: Some("hello".to_string()),
            label_dst: None,
        }
    );
}

#[test]
fn parse_reg_instr_test1() {
    let (leftover, result) = parse_reg_instr("hello: add zero, ra, sp").unwrap();
    let _ = leftover;
    assert_eq!(
        result,
        Text {
            instruction: InstructionData {
                mne: "add".to_string(),
                rs1: Some(1),
                rs2: Some(2),
                rd: Some(0),
                imm: None,
            },
            label: Some("hello".to_string()),
            label_dst: None,
        }
    );
}

#[test]
fn parse_reg_instr_test2() {
    let (leftover, result) = parse_reg_instr("hello:\n sll zero, ra, sp").unwrap();
    let _ = leftover;
    assert_eq!(
        result,
        Text {
            instruction: InstructionData {
                mne: "sll".to_string(),
                rs1: Some(1),
                rs2: Some(2),
                rd: Some(0),
                imm: None,
            },
            label: Some("hello".to_string()),
            label_dst: None,
        }
    );
}

#[test]
fn parse_reg_uj_test1() {
    let (leftover, result) = parse_uj_instr("hello:\njal zero 0x12312A").unwrap();
    let _ = leftover;
    assert_eq!(
        result,
        Text {
            instruction: InstructionData {
                mne: "jal".to_string(),
                rs1: None,
                rs2: None,
                rd: Some(0),
                imm: Some(0x12312A),
            },
            label: Some("hello".to_string()),
            label_dst: None,
        }
    );
}

#[test]
fn parse_reg_uj_test2() {
    let (leftover, result) = parse_uj_instr("lui s1 0x12312A").unwrap();
    let _ = leftover;
    assert_eq!(
        result,
        Text {
            instruction: InstructionData {
                mne: "lui".to_string(),
                rs1: None,
                rs2: None,
                rd: Some(9),
                imm: Some(0x12312A),
            },
            label: None,
            label_dst: None,
        }
    );
}

#[test]
fn parse_reg_jal_pseudo_test1() {
    let (leftover, result) = parse_jal_pseudo_instr("jal s1 cool_label").unwrap();
    let _ = leftover;
    assert_eq!(
        result,
        Text {
            instruction: InstructionData {
                mne: "jal".to_string(),
                rs1: None,
                rs2: None,
                rd: Some(9),
                imm: None,
            },
            label: None,
            label_dst: Some("cool_label".to_string()),
        }
    );
}

#[test]
fn parse_reg_jal_pseudo_test2() {
    let (leftover, result) = parse_jal_pseudo_instr("label: jal zero anotherLabel").unwrap();
    let _ = leftover;
    assert_eq!(
        result,
        Text {
            instruction: InstructionData {
                mne: "jal".to_string(),
                rs1: None,
                rs2: None,
                rd: Some(0),
                imm: None,
            },
            label: Some("label".to_string()),
            label_dst: Some("anotherLabel".to_string()),
        }
    );
}

#[test]
fn parse_reg_jalr_test1() {
    let (leftover, result) = parse_jalr_instr("label: jalr zero, 0xabc(ra)").unwrap();
    let _ = leftover;
    assert_eq!(
        result,
        Text {
            instruction: InstructionData {
                mne: "jalr".to_string(),
                rs1: Some(1),
                rs2: None,
                rd: Some(0),
                imm: Some(0xabc),
            },
            label: Some("label".to_string()),
            label_dst: None,
        }
    );
}

#[test]
fn parse_text_reads_lines_in_order() {
    let (leftover, records) =
        parse_text(".text\nstart: addi a0, a0, 1\n add a1, a0, a0\n beq a0, a1, start\n").unwrap();
    assert_eq!(leftover, "");
    assert_eq!(records.len(), 3);
    assert_eq!(records[0].label, Some("start".to_string()));
    assert_eq!(records[0].instruction.mne, "addi".to_string());
    assert_eq!(records[1].instruction.mne, "add".to_string());
    assert_eq!(records[2].instruction.mne, "beq".to_string());
    assert_eq!(records[2].label_dst, Some("start".to_string()));
}

#[test]
fn parse_text_keeps_mnemonic_as_written() {
    let (_, records) = parse_text("ADDI a0, a0, 5\n").unwrap();
    assert_eq!(records[0].instruction.mne, "ADDI".to_string());
    assert_eq!(records[0].instruction.imm, Some(5));
}

#[test]
fn parse_text_stops_before_unknown_lines() {
    let (leftover, records) = parse_text("addi a0, a0, 1\nbogus line here\n").unwrap();
    assert_eq!(records.len(), 1);
    assert!(leftover.starts_with("bogus"));
}

#[test]
fn parse_text_reports_overflowing_literal() {
    let err = parse_text("lui a0 0x100000000\n").unwrap_err();
    assert_eq!(err, AsmError::NumericOverflow);
}

#[test]
fn parse_text_reports_unknown_register() {
    let err = parse_text("add q9, a0, a1\n").unwrap_err();
    assert_eq!(err, AsmError::UnknownRegister);
}

#[test]
fn parse_datasize_matches_exact_directives() {
    assert_eq!(parse_datasize(".word 1", 0), Some((DataSize::Word, 5)));
    assert_eq!(parse_datasize(".half 1", 0), Some((DataSize::Half, 5)));
    assert_eq!(parse_datasize(".byte 1", 0), Some((DataSize::Byte, 5)));
    assert_eq!(parse_datasize(".WORD 1", 0), None);
    assert_eq!(parse_datasize("word", 0), None);
}

#[test]
fn parse_datalist_reads_comma_separated_values() {
    match parse_datalist("1, 0x10 , 0b11\n", 0) {
        ListOut::Vals(vals, _) => assert_eq!(vals, vec![1, 16, 3]),
        other => panic!("unexpected outcome: {:?}", other),
    }
}

#[test]
fn parse_datalist_reports_overflow() {
    assert_eq!(parse_datalist("4294967296", 0), ListOut::Overflow);
    match parse_datalist("4294967295", 0) {
        ListOut::Vals(vals, _) => assert_eq!(vals, vec![u32::MAX]),
        other => panic!("unexpected outcome: {:?}", other),
    }
}

#[test]
fn parse_dataline_packs_at_stated_width() {
    match parse_dataline("vals: .half 0x1234, 2\n", 0) {
        DataRuleOut::Matched(d, _) => {
            assert_eq!(
                d,
                Data {
                    label: Some("vals".to_string()),
                    data: vec![0x12, 0x34, 0x00, 0x02],
                    size: DataSize::Half,
                }
            );
        }
        other => panic!("unexpected outcome: {:?}", other),
    }
}

#[test]
fn parse_string_keeps_escapes_as_written() {
    match parse_string("msg: .string \"hi\\nthere\"\n", 0) {
        DataRuleOut::Matched(d, _) => {
            assert_eq!(d.label, Some("msg".to_string()));
            assert_eq!(d.size, DataSize::Byte);
            assert_eq!(d.data, b"hi\\nthere".to_vec());
        }
        other => panic!("unexpected outcome: {:?}", other),
    }
}

#[test]
fn parse_string_accepts_asciz_ignoring_case() {
    match parse_string(".AsciZ \"ok\"", 0) {
        DataRuleOut::Matched(d, _) => assert_eq!(d.data, vec![b'o', b'k']),
        other => panic!("unexpected outcome: {:?}", other),
    }
}

#[test]
fn num_to_bytes_packs_most_significant_first() {
    assert_eq!(
        num_to_bytes(vec![0x11223344], DataSize::Word),
        vec![0x11, 0x22, 0x33, 0x44]
    );
    assert_eq!(num_to_bytes(vec![0x1234, 0x5678], DataSize::Half), vec![0x12, 0x34, 0x56, 0x78]);
    assert_eq!(num_to_bytes(vec![0x1234], DataSize::Byte), vec![0x34]);
    assert_eq!(num_to_bytes(vec![], DataSize::Word), Vec::<u8>::new());
}
