use assembler::driver::assemble;
use assembler::errors::AsmError;
use assembler::parser::{parse_text, Data, DataSize, FullFile};
use assembler::resolver::{build_symbol_table, resolve_references, Segment};

#[test]
fn backward_reference_resolves_to_minus_eight() {
    let src = "top: addi a0, a0, 1\naddi a0, a0, 1\nblt a0, a1, top\n";
    let (text, data) = assemble(src).unwrap();
    assert_eq!(
        text,
        vec![
            0x00, 0x15, 0x05, 0x13, // addi a0, a0, 1
            0x00, 0x15, 0x05, 0x13, // addi a0, a0, 1
            0xFE, 0xB5, 0x4C, 0xE3, // blt a0, a1, -8
        ]
    );
    assert_eq!(data, Vec::<u8>::new());
}

#[test]
fn forward_reference_resolves_to_plus_eight() {
    let src = "beq a0, a1, fwd\naddi a0, a0, 1\nfwd: addi a0, a0, 1\n";
    let (text, _) = assemble(src).unwrap();
    assert_eq!(&text[0..4], &[0x00, 0xB5, 0x04, 0x63]);
}

#[test]
fn jump_to_own_label_resolves_to_zero() {
    let (text, _) = assemble("start: jal ra start\n").unwrap();
    assert_eq!(text, vec![0x00, 0x00, 0x00, 0xEF]);
}

#[test]
fn add_vector_matches_architecture() {
    let (text, _) = assemble("add ra, ra, ra\n").unwrap();
    assert_eq!(text, vec![0x00, 0x10, 0x80, 0xB3]);
}

#[test]
fn lui_vector_matches_architecture() {
    let (text, _) = assemble("lui a2 0xDEAD\n").unwrap();
    assert_eq!(text, vec![0x0D, 0xEA, 0xD6, 0x37]);
}

#[test]
fn jal_vector_matches_architecture() {
    let (text, _) = assemble("jal ra 0b101010101010101010101\n").unwrap();
    assert_eq!(text, vec![0xD5, 0x45, 0x50, 0xEF]);
}

#[test]
fn undefined_label_yields_no_bytes() {
    let err = assemble("jal a0 missing\n").unwrap_err();
    assert_eq!(err, AsmError::UndefinedLabel("missing".to_string()));
}

#[test]
fn duplicate_label_is_reported_by_name() {
    let err = assemble("x: addi a0, a0, 1\nx: addi a0, a0, 1\n").unwrap_err();
    assert_eq!(err, AsmError::DuplicateLabel("x".to_string()));
}

#[test]
fn duplicate_label_across_segments_is_reported() {
    let err = assemble("x: addi a0, a0, 1\n.data\nx: .byte 1\n").unwrap_err();
    assert_eq!(err, AsmError::DuplicateLabel("x".to_string()));
}

#[test]
fn syntax_error_carries_the_offending_line() {
    let err = assemble("addi a0, a0, 1\nbogus stuff\n").unwrap_err();
    assert_eq!(err, AsmError::SyntaxError(2));
    let err1 = assemble("???\n").unwrap_err();
    assert_eq!(err1, AsmError::SyntaxError(1));
}

#[test]
fn overflowing_literal_is_reported() {
    let err = assemble("addi a0, a0, 0x100000000\n").unwrap_err();
    assert_eq!(err, AsmError::NumericOverflow);
}

#[test]
fn unknown_register_is_reported() {
    let err = assemble("add q9, a0, a1\n").unwrap_err();
    assert_eq!(err, AsmError::UnknownRegister);
}

#[test]
fn odd_branch_distance_is_out_of_range() {
    let src = "beq a0, a1, oddlab\n.data\npad: .byte 1\noddlab: .byte 2\n";
    let err = assemble(src).unwrap_err();
    assert_eq!(err, AsmError::ImmediateOutOfRange);
}

#[test]
fn branch_beyond_field_width_is_out_of_range() {
    let mut src = String::from("beq a0, a1, far\n.data\nblob: .word ");
    for _ in 0..1023 {
        src.push_str("0, ");
    }
    src.push_str("0\nfar: .byte 1\n");
    let err = assemble(src.as_str()).unwrap_err();
    assert_eq!(err, AsmError::ImmediateOutOfRange);
}

#[test]
fn jump_reaches_beyond_branch_range() {
    let mut src = String::from("jal zero far\n.data\nblob: .word ");
    for _ in 0..1023 {
        src.push_str("0, ");
    }
    src.push_str("0\nfar: .byte 2\n");
    let (text, data) = assemble(src.as_str()).unwrap();
    // jal zero, +4096: imm[19:12] span holds bit 12
    assert_eq!(text, vec![0x00, 0x00, 0x10, 0x6F]);
    assert_eq!(data.len(), 4097);
}

#[test]
fn data_section_bytes_follow_source_order() {
    let src = "lui a0 1\n.data\nvals: .word 1, 2\nmsg: .asciz \"ab\"\n";
    let (text, data) = assemble(src).unwrap();
    assert_eq!(text, vec![0x00, 0x00, 0x15, 0x37]);
    assert_eq!(data, vec![0, 0, 0, 1, 0, 0, 0, 2, 0x61, 0x62]);
}

#[test]
fn empty_source_assembles_to_nothing() {
    let (text, data) = assemble("").unwrap();
    assert_eq!(text, Vec::<u8>::new());
    assert_eq!(data, Vec::<u8>::new());
    let (text2, data2) = assemble("  \n\t .text \n ").unwrap();
    assert_eq!(text2, Vec::<u8>::new());
    assert_eq!(data2, Vec::<u8>::new());
}

#[test]
fn symbol_table_assigns_segment_offsets() {
    let (_, records) = parse_text("a: addi a0, a0, 1\nb: addi a0, a0, 1\n").unwrap();
    let file = FullFile {
        text: records,
        data: vec![
            Data { label: Some("d".to_string()), data: vec![1, 2, 3], size: DataSize::Byte },
            Data { label: Some("e".to_string()), data: vec![9], size: DataSize::Byte },
        ],
    };
    let tbl = build_symbol_table(&file).unwrap();
    assert_eq!(tbl.len(), 4);
    assert_eq!(tbl[0].name, "a".to_string());
    assert_eq!(tbl[0].segment, Segment::Text);
    assert_eq!(tbl[0].offset, 0);
    assert_eq!(tbl[1].name, "b".to_string());
    assert_eq!(tbl[1].offset, 4);
    assert_eq!(tbl[2].name, "d".to_string());
    assert_eq!(tbl[2].segment, Segment::Data);
    assert_eq!(tbl[2].offset, 0);
    assert_eq!(tbl[3].name, "e".to_string());
    assert_eq!(tbl[3].offset, 3);
}

#[test]
fn resolution_rewrites_only_references() {
    let (_, records) = parse_text("top: addi a0, a0, 1\nbne a0, a1, top\n").unwrap();
    let file = FullFile { text: records, data: vec![] };
    let tbl = build_symbol_table(&file).unwrap();
    let resolved = resolve_references(&file.text, &tbl).unwrap();
    assert_eq!(resolved[0], file.text[0]);
    assert_eq!(resolved[1].instruction.imm, Some((-4i32) as u32));
    assert_eq!(resolved[1].label_dst, None);
    assert_eq!(resolved[1].instruction.mne, "bne".to_string());
}

#[test]
fn branch_at_field_width_boundary_is_accepted() {
    // the target sits 4094 bytes in: the largest even distance a branch holds
    let mut src = String::from("beq a0, a1, far\n.data\nblob: .word ");
    for _ in 0..1022 {
        src.push_str("0, ");
    }
    src.push_str("0\npad: .half 1\nfar: .byte 2\n");
    let (text, data) = assemble(src.as_str()).unwrap();
    assert_eq!(text, vec![0x7E, 0xB5, 0x0F, 0xE3]);
    assert_eq!(data.len(), 4095);
}

#[test]
fn data_only_source_assembles() {
    let (text, data) = assemble(".data\nv: .byte 7, 8\n").unwrap();
    assert_eq!(text, Vec::<u8>::new());
    assert_eq!(data, vec![7, 8]);
}
