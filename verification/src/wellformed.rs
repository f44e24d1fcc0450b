//! The descriptor invariant: every record the grammar yields carries exactly
//! the fields of its mnemonic's format, so resolution hands the encoder only
//! descriptors that denote instructions.

use vstd::prelude::*;
use crate::btype::BTypeMne;
use crate::chars::{char_eq_ic, eq_ignore_case, is_lower_char};
use crate::instructions::{spec_instr_of, InstructionDataV};
use crate::itype::ITypeMne;
use crate::jtype::JTypeMne;
use crate::parser::{
    is_branch_mne,
    is_imm_mne,
    is_load_mne,
    is_reg_mne,
    is_store_mne,
    ParseOut,
    TextScan,
    TextV,
    spec_mne_token,
    spec_opt_label,
    spec_parse_branch,
    spec_parse_branch_pseudo,
    spec_parse_imm_instr,
    spec_parse_jal_pseudo,
    spec_parse_jalr,
    spec_parse_load,
    spec_parse_reg_instr,
    spec_parse_rules,
    spec_parse_store,
    spec_parse_text_from,
    spec_parse_uj,
};
use crate::resolver::{lookup, resolve_from, resolve_one, ResErr, SymV};
use crate::rtype::RTypeMne;
use crate::stype::STypeMne;
use crate::utype::UTypeMne;

verus! {

/// The characters of every mnemonic, spelled out.
proof fn keyword_facts()
    ensures
        "beq"@ =~= seq!['b', 'e', 'q'],
        "bne"@ =~= seq!['b', 'n', 'e'],
        "blt"@ =~= seq!['b', 'l', 't'],
        "bge"@ =~= seq!['b', 'g', 'e'],
        "bltu"@ =~= seq!['b', 'l', 't', 'u'],
        "bgeu"@ =~= seq!['b', 'g', 'e', 'u'],
        "jalr"@ =~= seq!['j', 'a', 'l', 'r'],
        "lb"@ =~= seq!['l', 'b'],
        "lh"@ =~= seq!['l', 'h'],
        "lw"@ =~= seq!['l', 'w'],
        "lbu"@ =~= seq!['l', 'b', 'u'],
        "lhu"@ =~= seq!['l', 'h', 'u'],
        "addi"@ =~= seq!['a', 'd', 'd', 'i'],
        "slti"@ =~= seq!['s', 'l', 't', 'i'],
        "sltiu"@ =~= seq!['s', 'l', 't', 'i', 'u'],
        "xori"@ =~= seq!['x', 'o', 'r', 'i'],
        "ori"@ =~= seq!['o', 'r', 'i'],
        "andi"@ =~= seq!['a', 'n', 'd', 'i'],
        "slli"@ =~= seq!['s', 'l', 'l', 'i'],
        "srli"@ =~= seq!['s', 'r', 'l', 'i'],
        "srai"@ =~= seq!['s', 'r', 'a', 'i'],
        "jal"@ =~= seq!['j', 'a', 'l'],
        "add"@ =~= seq!['a', 'd', 'd'],
        "sub"@ =~= seq!['s', 'u', 'b'],
        "sll"@ =~= seq!['s', 'l', 'l'],
        "slt"@ =~= seq!['s', 'l', 't'],
        "sltu"@ =~= seq!['s', 'l', 't', 'u'],
        "xor"@ =~= seq!['x', 'o', 'r'],
        "srl"@ =~= seq!['s', 'r', 'l'],
        "sra"@ =~= seq!['s', 'r', 'a'],
        "or"@ =~= seq!['o', 'r'],
        "and"@ =~= seq!['a', 'n', 'd'],
        "sb"@ =~= seq!['s', 'b'],
        "sh"@ =~= seq!['s', 'h'],
        "sw"@ =~= seq!['s', 'w'],
        "lui"@ =~= seq!['l', 'u', 'i'],
        "auipc"@ =~= seq!['a', 'u', 'i', 'p', 'c'],
{
    reveal_strlit("beq");
    reveal_strlit("bne");
    reveal_strlit("blt");
    reveal_strlit("bge");
    reveal_strlit("bltu");
    reveal_strlit("bgeu");
    reveal_strlit("jalr");
    reveal_strlit("lb");
    reveal_strlit("lh");
    reveal_strlit("lw");
    reveal_strlit("lbu");
    reveal_strlit("lhu");
    reveal_strlit("addi");
    reveal_strlit("slti");
    reveal_strlit("sltiu");
    reveal_strlit("xori");
    reveal_strlit("ori");
    reveal_strlit("andi");
    reveal_strlit("slli");
    reveal_strlit("srli");
    reveal_strlit("srai");
    reveal_strlit("jal");
    reveal_strlit("add");
    reveal_strlit("sub");
    reveal_strlit("sll");
    reveal_strlit("slt");
    reveal_strlit("sltu");
    reveal_strlit("xor");
    reveal_strlit("srl");
    reveal_strlit("sra");
    reveal_strlit("or");
    reveal_strlit("and");
    reveal_strlit("sb");
    reveal_strlit("sh");
    reveal_strlit("sw");
    reveal_strlit("lui");
    reveal_strlit("auipc");
}

/// A string whose first character is no 'b' of either case names no branch
/// mnemonic.
proof fn lemma_not_branch_mne(s: Seq<char>, c: char)
    requires
        s.len() > 0,
        char_eq_ic(s[0], c),
        is_lower_char(c),
        c != 'b',
    ensures
        BTypeMne::spec_from_str(s) is Err,
{
    keyword_facts();
    if eq_ignore_case(s, "beq"@) {
        assert(char_eq_ic(s[0], "beq"@[0]));
        assert(false);
    }
    if eq_ignore_case(s, "bne"@) {
        assert(char_eq_ic(s[0], "bne"@[0]));
        assert(false);
    }
    if eq_ignore_case(s, "blt"@) {
        assert(char_eq_ic(s[0], "blt"@[0]));
        assert(false);
    }
    if eq_ignore_case(s, "bge"@) {
        assert(char_eq_ic(s[0], "bge"@[0]));
        assert(false);
    }
    if eq_ignore_case(s, "bltu"@) {
        assert(char_eq_ic(s[0], "bltu"@[0]));
        assert(false);
    }
    if eq_ignore_case(s, "bgeu"@) {
        assert(char_eq_ic(s[0], "bgeu"@[0]));
        assert(false);
    }
}

/// A string whose first character is no 'j' of either case names no jump
/// mnemonic.
proof fn lemma_not_jal_mne(s: Seq<char>, c: char)
    requires
        s.len() > 0,
        char_eq_ic(s[0], c),
        is_lower_char(c),
        c != 'j',
    ensures
        JTypeMne::spec_from_str(s) is Err,
{
    keyword_facts();
    if eq_ignore_case(s, "jal"@) {
        assert(char_eq_ic(s[0], "jal"@[0]));
        assert(false);
    }
}

/// A string whose first character matches none of 'a', 's', 'x', 'o' names
/// no register-register mnemonic.
proof fn lemma_not_rtype_mne(s: Seq<char>, c: char)
    requires
        s.len() > 0,
        char_eq_ic(s[0], c),
        is_lower_char(c),
        c != 'a' && c != 's' && c != 'x' && c != 'o',
    ensures
        RTypeMne::spec_from_str(s) is Err,
{
    keyword_facts();
    if eq_ignore_case(s, "add"@) {
        assert(char_eq_ic(s[0], "add"@[0]));
        assert(false);
    }
    if eq_ignore_case(s, "sub"@) {
        assert(char_eq_ic(s[0], "sub"@[0]));
        assert(false);
    }
    if eq_ignore_case(s, "sll"@) {
        assert(char_eq_ic(s[0], "sll"@[0]));
        assert(false);
    }
    if eq_ignore_case(s, "slt"@) {
        assert(char_eq_ic(s[0], "slt"@[0]));
        assert(false);
    }
    if eq_ignore_case(s, "sltu"@) {
        assert(char_eq_ic(s[0], "sltu"@[0]));
        assert(false);
    }
    if eq_ignore_case(s, "xor"@) {
        assert(char_eq_ic(s[0], "xor"@[0]));
        assert(false);
    }
    if eq_ignore_case(s, "srl"@) {
        assert(char_eq_ic(s[0], "srl"@[0]));
        assert(false);
    }
    if eq_ignore_case(s, "sra"@) {
        assert(char_eq_ic(s[0], "sra"@[0]));
        assert(false);
    }
    if eq_ignore_case(s, "or"@) {
        assert(char_eq_ic(s[0], "or"@[0]));
        assert(false);
    }
    if eq_ignore_case(s, "and"@) {
        assert(char_eq_ic(s[0], "and"@[0]));
        assert(false);
    }
}

/// A string whose first character is no 's' of either case names no store
/// mnemonic.
proof fn lemma_not_stype_mne(s: Seq<char>, c: char)
    requires
        s.len() > 0,
        char_eq_ic(s[0], c),
        is_lower_char(c),
        c != 's',
    ensures
        STypeMne::spec_from_str(s) is Err,
{
    keyword_facts();
    if eq_ignore_case(s, "sb"@) {
        assert(char_eq_ic(s[0], "sb"@[0]));
        assert(false);
    }
    if eq_ignore_case(s, "sh"@) {
        assert(char_eq_ic(s[0], "sh"@[0]));
        assert(false);
    }
    if eq_ignore_case(s, "sw"@) {
        assert(char_eq_ic(s[0], "sw"@[0]));
        assert(false);
    }
}

/// A load descriptor with destination, base register and immediate denotes
/// an instruction.
proof fn lemma_instr_of_load(d: InstructionDataV)
    requires
        is_load_mne(d.mne),
        d.rd is Some,
        d.rs1 is Some,
        d.imm is Some,
    ensures
        spec_instr_of(d) is Some,
{
    keyword_facts();
    let s = d.mne;
    if eq_ignore_case(s, "lb"@) {
        assert(char_eq_ic(s[0], "lb"@[0]));
    }
    if eq_ignore_case(s, "lh"@) {
        assert(char_eq_ic(s[0], "lh"@[0]));
    }
    if eq_ignore_case(s, "lw"@) {
        assert(char_eq_ic(s[0], "lw"@[0]));
    }
    if eq_ignore_case(s, "lbu"@) {
        assert(char_eq_ic(s[0], "lbu"@[0]));
    }
    if eq_ignore_case(s, "lhu"@) {
        assert(char_eq_ic(s[0], "lhu"@[0]));
    }
    lemma_not_branch_mne(s, 'l');
    assert(ITypeMne::spec_from_str(s) is Ok);
}

/// A register-jump descriptor with destination, base register and immediate
/// denotes an instruction.
proof fn lemma_instr_of_jalr(d: InstructionDataV)
    requires
        eq_ignore_case(d.mne, "jalr"@),
        d.rd is Some,
        d.rs1 is Some,
        d.imm is Some,
    ensures
        spec_instr_of(d) is Some,
{
    keyword_facts();
    let s = d.mne;
    assert(char_eq_ic(s[0], "jalr"@[0]));
    lemma_not_branch_mne(s, 'j');
    assert(ITypeMne::spec_from_str(s) is Ok);
}

/// A register-immediate descriptor with destination, source and immediate
/// denotes an instruction.
proof fn lemma_instr_of_imm(d: InstructionDataV)
    requires
        is_imm_mne(d.mne),
        d.rd is Some,
        d.rs1 is Some,
        d.imm is Some,
    ensures
        spec_instr_of(d) is Some,
{
    keyword_facts();
    let s = d.mne;
    if eq_ignore_case(s, "addi"@) {
        assert(char_eq_ic(s[0], "addi"@[0]));
        lemma_not_branch_mne(s, 'a');
    }
    if eq_ignore_case(s, "xori"@) {
        assert(char_eq_ic(s[0], "xori"@[0]));
        lemma_not_branch_mne(s, 'x');
    }
    if eq_ignore_case(s, "ori"@) {
        assert(char_eq_ic(s[0], "ori"@[0]));
        lemma_not_branch_mne(s, 'o');
    }
    if eq_ignore_case(s, "andi"@) {
        assert(char_eq_ic(s[0], "andi"@[0]));
        lemma_not_branch_mne(s, 'a');
    }
    if eq_ignore_case(s, "slli"@) {
        assert(char_eq_ic(s[0], "slli"@[0]));
        lemma_not_branch_mne(s, 's');
    }
    if eq_ignore_case(s, "srli"@) {
        assert(char_eq_ic(s[0], "srli"@[0]));
        lemma_not_branch_mne(s, 's');
    }
    if eq_ignore_case(s, "srai"@) {
        assert(char_eq_ic(s[0], "srai"@[0]));
        lemma_not_branch_mne(s, 's');
    }
    if eq_ignore_case(s, "slti"@) {
        assert(char_eq_ic(s[0], "slti"@[0]));
        lemma_not_branch_mne(s, 's');
    }
    if eq_ignore_case(s, "sltiu"@) {
        assert(char_eq_ic(s[0], "sltiu"@[0]));
        lemma_not_branch_mne(s, 's');
    }
    assert(ITypeMne::spec_from_str(s) is Ok);
}

/// A branch descriptor with two sources and an immediate denotes an
/// instruction.
proof fn lemma_instr_of_branch(d: InstructionDataV)
    requires
        is_branch_mne(d.mne),
        d.rs1 is Some,
        d.rs2 is Some,
        d.imm is Some,
    ensures
        spec_instr_of(d) is Some,
{
    assert(BTypeMne::spec_from_str(d.mne) is Ok);
}

/// A jump descriptor with destination and immediate denotes an instruction.
proof fn lemma_instr_of_jal(d: InstructionDataV)
    requires
        eq_ignore_case(d.mne, "jal"@),
        d.rd is Some,
        d.imm is Some,
    ensures
        spec_instr_of(d) is Some,
{
    keyword_facts();
    let s = d.mne;
    assert(char_eq_ic(s[0], "jal"@[0]));
    lemma_not_branch_mne(s, 'j');
    if eq_ignore_case(s, "lbu"@) {
        assert(char_eq_ic(s[0], "lbu"@[0]));
        assert(false);
    }
    if eq_ignore_case(s, "lhu"@) {
        assert(char_eq_ic(s[0], "lhu"@[0]));
        assert(false);
    }
    if eq_ignore_case(s, "ori"@) {
        assert(char_eq_ic(s[0], "ori"@[0]));
        assert(false);
    }
    assert(ITypeMne::spec_from_str(s) is Err);
    assert(JTypeMne::spec_from_str(s) is Ok);
}

/// A register-register descriptor with destination and two sources denotes
/// an instruction.
proof fn lemma_instr_of_reg(d: InstructionDataV)
    requires
        is_reg_mne(d.mne),
        d.rd is Some,
        d.rs1 is Some,
        d.rs2 is Some,
    ensures
        spec_instr_of(d) is Some,
{
    keyword_facts();
    let s = d.mne;
    if eq_ignore_case(s, "add"@) {
        assert(char_eq_ic(s[0], "add"@[0]));
        lemma_not_branch_mne(s, 'a');
        lemma_not_jal_mne(s, 'a');
        if eq_ignore_case(s, "lbu"@) {
            assert(char_eq_ic(s[0], "lbu"@[0]));
            assert(false);
        }
        if eq_ignore_case(s, "lhu"@) {
            assert(char_eq_ic(s[0], "lhu"@[0]));
            assert(false);
        }
        if eq_ignore_case(s, "ori"@) {
            assert(char_eq_ic(s[0], "ori"@[0]));
            assert(false);
        }
    }
    if eq_ignore_case(s, "sub"@) {
        assert(char_eq_ic(s[0], "sub"@[0]));
        lemma_not_branch_mne(s, 's');
        lemma_not_jal_mne(s, 's');
        if eq_ignore_case(s, "lbu"@) {
            assert(char_eq_ic(s[0], "lbu"@[0]));
            assert(false);
        }
        if eq_ignore_case(s, "lhu"@) {
            assert(char_eq_ic(s[0], "lhu"@[0]));
            assert(false);
        }
        if eq_ignore_case(s, "ori"@) {
            assert(char_eq_ic(s[0], "ori"@[0]));
            assert(false);
        }
    }
    if eq_ignore_case(s, "sll"@) {
        assert(char_eq_ic(s[0], "sll"@[0]));
        lemma_not_branch_mne(s, 's');
        lemma_not_jal_mne(s, 's');
        if eq_ignore_case(s, "lbu"@) {
            assert(char_eq_ic(s[0], "lbu"@[0]));
            assert(false);
        }
        if eq_ignore_case(s, "lhu"@) {
            assert(char_eq_ic(s[0], "lhu"@[0]));
            assert(false);
        }
        if eq_ignore_case(s, "ori"@) {
            assert(char_eq_ic(s[0], "ori"@[0]));
            assert(false);
        }
    }
    if eq_ignore_case(s, "slt"@) {
        assert(char_eq_ic(s[0], "slt"@[0]));
        lemma_not_branch_mne(s, 's');
        lemma_not_jal_mne(s, 's');
        if eq_ignore_case(s, "lbu"@) {
            assert(char_eq_ic(s[0], "lbu"@[0]));
            assert(false);
        }
        if eq_ignore_case(s, "lhu"@) {
            assert(char_eq_ic(s[0], "lhu"@[0]));
            assert(false);
        }
        if eq_ignore_case(s, "ori"@) {
            assert(char_eq_ic(s[0], "ori"@[0]));
            assert(false);
        }
    }
    if eq_ignore_case(s, "sltu"@) {
        assert(char_eq_ic(s[0], "sltu"@[0]));
        assert(char_eq_ic(s[1], "sltu"@[1]));
        assert(char_eq_ic(s[2], "sltu"@[2]));
        assert(char_eq_ic(s[3], "sltu"@[3]));
        lemma_not_branch_mne(s, 's');
        lemma_not_jal_mne(s, 's');
        if eq_ignore_case(s, "jalr"@) {
            assert(char_eq_ic(s[0], "jalr"@[0]));
            assert(false);
        }
        if eq_ignore_case(s, "addi"@) {
            assert(char_eq_ic(s[0], "addi"@[0]));
            assert(false);
        }
        if eq_ignore_case(s, "slti"@) {
            assert(char_eq_ic(s[3], "slti"@[3]));
            assert(false);
        }
        if eq_ignore_case(s, "xori"@) {
            assert(char_eq_ic(s[0], "xori"@[0]));
            assert(false);
        }
        if eq_ignore_case(s, "andi"@) {
            assert(char_eq_ic(s[0], "andi"@[0]));
            assert(false);
        }
        if eq_ignore_case(s, "slli"@) {
            assert(char_eq_ic(s[2], "slli"@[2]));
            assert(false);
        }
        if eq_ignore_case(s, "srli"@) {
            assert(char_eq_ic(s[1], "srli"@[1]));
            assert(false);
        }
        if eq_ignore_case(s, "srai"@) {
            assert(char_eq_ic(s[1], "srai"@[1]));
            assert(false);
        }
    }
    if eq_ignore_case(s, "xor"@) {
        assert(char_eq_ic(s[0], "xor"@[0]));
        lemma_not_branch_mne(s, 'x');
        lemma_not_jal_mne(s, 'x');
        if eq_ignore_case(s, "lbu"@) {
            assert(char_eq_ic(s[0], "lbu"@[0]));
            assert(false);
        }
        if eq_ignore_case(s, "lhu"@) {
            assert(char_eq_ic(s[0], "lhu"@[0]));
            assert(false);
        }
        if eq_ignore_case(s, "ori"@) {
            assert(char_eq_ic(s[0], "ori"@[0]));
            assert(false);
        }
    }
    if eq_ignore_case(s, "srl"@) {
        assert(char_eq_ic(s[0], "srl"@[0]));
        lemma_not_branch_mne(s, 's');
        lemma_not_jal_mne(s, 's');
        if eq_ignore_case(s, "lbu"@) {
            assert(char_eq_ic(s[0], "lbu"@[0]));
            assert(false);
        }
        if eq_ignore_case(s, "lhu"@) {
            assert(char_eq_ic(s[0], "lhu"@[0]));
            assert(false);
        }
        if eq_ignore_case(s, "ori"@) {
            assert(char_eq_ic(s[0], "ori"@[0]));
            assert(false);
        }
    }
    if eq_ignore_case(s, "sra"@) {
        assert(char_eq_ic(s[0], "sra"@[0]));
        lemma_not_branch_mne(s, 's');
        lemma_not_jal_mne(s, 's');
        if eq_ignore_case(s, "lbu"@) {
            assert(char_eq_ic(s[0], "lbu"@[0]));
            assert(false);
        }
        if eq_ignore_case(s, "lhu"@) {
            assert(char_eq_ic(s[0], "lhu"@[0]));
            assert(false);
        }
        if eq_ignore_case(s, "ori"@) {
            assert(char_eq_ic(s[0], "ori"@[0]));
            assert(false);
        }
    }
    if eq_ignore_case(s, "or"@) {
        assert(char_eq_ic(s[0], "or"@[0]));
        lemma_not_branch_mne(s, 'o');
        lemma_not_jal_mne(s, 'o');
        if eq_ignore_case(s, "lb"@) {
            assert(char_eq_ic(s[0], "lb"@[0]));
            assert(false);
        }
        if eq_ignore_case(s, "lh"@) {
            assert(char_eq_ic(s[0], "lh"@[0]));
            assert(false);
        }
        if eq_ignore_case(s, "lw"@) {
            assert(char_eq_ic(s[0], "lw"@[0]));
            assert(false);
        }
    }
    if eq_ignore_case(s, "and"@) {
        assert(char_eq_ic(s[0], "and"@[0]));
        lemma_not_branch_mne(s, 'a');
        lemma_not_jal_mne(s, 'a');
        if eq_ignore_case(s, "lbu"@) {
            assert(char_eq_ic(s[0], "lbu"@[0]));
            assert(false);
        }
        if eq_ignore_case(s, "lhu"@) {
            assert(char_eq_ic(s[0], "lhu"@[0]));
            assert(false);
        }
        if eq_ignore_case(s, "ori"@) {
            assert(char_eq_ic(s[0], "ori"@[0]));
            assert(false);
        }
    }
    assert(BTypeMne::spec_from_str(s) is Err);
    assert(ITypeMne::spec_from_str(s) is Err);
    assert(JTypeMne::spec_from_str(s) is Err);
    assert(RTypeMne::spec_from_str(s) is Ok);
}

/// A store descriptor with two sources and an immediate denotes an
/// instruction.
proof fn lemma_instr_of_store(d: InstructionDataV)
    requires
        is_store_mne(d.mne),
        d.rs1 is Some,
        d.rs2 is Some,
        d.imm is Some,
    ensures
        spec_instr_of(d) is Some,
{
    keyword_facts();
    let s = d.mne;
    if eq_ignore_case(s, "sb"@) {
        assert(char_eq_ic(s[0], "sb"@[0]));
    }
    if eq_ignore_case(s, "sh"@) {
        assert(char_eq_ic(s[0], "sh"@[0]));
    }
    if eq_ignore_case(s, "sw"@) {
        assert(char_eq_ic(s[0], "sw"@[0]));
    }
    lemma_not_branch_mne(s, 's');
    lemma_not_jal_mne(s, 's');
    if eq_ignore_case(s, "lb"@) {
        assert(char_eq_ic(s[0], "lb"@[0]));
        assert(false);
    }
    if eq_ignore_case(s, "lh"@) {
        assert(char_eq_ic(s[0], "lh"@[0]));
        assert(false);
    }
    if eq_ignore_case(s, "lw"@) {
        assert(char_eq_ic(s[0], "lw"@[0]));
        assert(false);
    }
    assert(ITypeMne::spec_from_str(s) is Err);
    if eq_ignore_case(s, "or"@) {
        assert(char_eq_ic(s[0], "or"@[0]));
        assert(false);
    }
    assert(RTypeMne::spec_from_str(s) is Err);
    assert(STypeMne::spec_from_str(s) is Ok);
}

/// An upper-immediate descriptor with destination and immediate denotes an
/// instruction.
proof fn lemma_instr_of_upper(d: InstructionDataV)
    requires
        eq_ignore_case(d.mne, "lui"@) || eq_ignore_case(d.mne, "auipc"@),
        d.rd is Some,
        d.imm is Some,
    ensures
        spec_instr_of(d) is Some,
{
    keyword_facts();
    let s = d.mne;
    if eq_ignore_case(s, "lui"@) {
        assert(char_eq_ic(s[0], "lui"@[0]));
        assert(char_eq_ic(s[1], "lui"@[1]));
        lemma_not_branch_mne(s, 'l');
        lemma_not_jal_mne(s, 'l');
        lemma_not_rtype_mne(s, 'l');
        lemma_not_stype_mne(s, 'l');
        if eq_ignore_case(s, "lbu"@) {
            assert(char_eq_ic(s[1], "lbu"@[1]));
            assert(false);
        }
        if eq_ignore_case(s, "lhu"@) {
            assert(char_eq_ic(s[1], "lhu"@[1]));
            assert(false);
        }
        if eq_ignore_case(s, "ori"@) {
            assert(char_eq_ic(s[0], "ori"@[0]));
            assert(false);
        }
        assert(ITypeMne::spec_from_str(s) is Err);
    } else {
        assert(char_eq_ic(s[0], "auipc"@[0]));
        lemma_not_branch_mne(s, 'a');
        lemma_not_jal_mne(s, 'a');
        lemma_not_stype_mne(s, 'a');
        if eq_ignore_case(s, "sltiu"@) {
            assert(char_eq_ic(s[0], "sltiu"@[0]));
            assert(false);
        }
        assert(ITypeMne::spec_from_str(s) is Err);
        assert(RTypeMne::spec_from_str(s) is Err);
    }
    assert(UTypeMne::spec_from_str(s) is Ok);
}

} // verus!

verus! {

/// The descriptor invariant: a record without a label reference denotes an
/// instruction outright; one with a reference is a branch or jump whose
/// immediate the resolver will fill.
pub open spec fn record_wf(t: TextV) -> bool {
    match t.label_dst {
        None => spec_instr_of(t.instruction) is Some,
        Some(_) => t.instruction.imm is None && ((is_branch_mne(t.instruction.mne)
            && t.instruction.rd is None && t.instruction.rs1 is Some && t.instruction.rs2 is Some)
            || (eq_ignore_case(t.instruction.mne, "jal"@) && t.instruction.rd is Some
            && t.instruction.rs1 is None && t.instruction.rs2 is None)),
    }
}

/// Every record a grammar rule yields satisfies the descriptor invariant.
pub proof fn lemma_rules_wf(s: Seq<char>, i: int)
    ensures
        spec_parse_rules(s, i) matches ParseOut::Matched(t, e) ==> record_wf(t),
{
    lemma_load_rule_wf(s, i);
    lemma_store_rule_wf(s, i);
    lemma_branch_rule_wf(s, i);
    lemma_branch_pseudo_rule_wf(s, i);
    lemma_imm_rule_wf(s, i);
    lemma_reg_rule_wf(s, i);
    lemma_uj_rule_wf(s, i);
    lemma_jal_pseudo_rule_wf(s, i);
    lemma_jalr_rule_wf(s, i);
}

proof fn lemma_load_rule_wf(s: Seq<char>, i: int)
    ensures
        spec_parse_load(s, i) matches ParseOut::Matched(t, e) ==> record_wf(t),
{
    let (lab, i0) = spec_opt_label(s, i);
    match spec_mne_token(s, i0) {
        None => {},
        Some((mne, e0)) => {
            if is_load_mne(mne) {
                match crate::parser::spec_shape_mem(s, e0) {
                    Ok(x) => {
                        keyword_facts();
                        lemma_instr_of_load(
                            InstructionDataV {
                                mne,
                                rd: Some(x.0),
                                rs1: Some(x.2),
                                rs2: None,
                                imm: Some(x.1),
                            },
                        );
                    },
                    Err(_) => {},
                }
            }
        },
    }
}

proof fn lemma_store_rule_wf(s: Seq<char>, i: int)
    ensures
        spec_parse_store(s, i) matches ParseOut::Matched(t, e) ==> record_wf(t),
{
    let (lab, i0) = spec_opt_label(s, i);
    match spec_mne_token(s, i0) {
        None => {},
        Some((mne, e0)) => {
            if is_store_mne(mne) {
                match crate::parser::spec_shape_mem(s, e0) {
                    Ok(x) => {
                        keyword_facts();
                        lemma_instr_of_store(
                            InstructionDataV {
                                mne,
                                rd: None,
                                rs1: Some(x.2),
                                rs2: Some(x.0),
                                imm: Some(x.1),
                            },
                        );
                    },
                    Err(_) => {},
                }
            }
        },
    }
}

proof fn lemma_branch_rule_wf(s: Seq<char>, i: int)
    ensures
        spec_parse_branch(s, i) matches ParseOut::Matched(t, e) ==> record_wf(t),
{
    let (lab, i0) = spec_opt_label(s, i);
    match spec_mne_token(s, i0) {
        None => {},
        Some((mne, e0)) => {
            if is_branch_mne(mne) {
                match crate::parser::spec_shape_rri(s, e0) {
                    Ok(x) => {
                        lemma_instr_of_branch(
                            InstructionDataV {
                                mne,
                                rd: None,
                                rs1: Some(x.0),
                                rs2: Some(x.1),
                                imm: Some(x.2),
                            },
                        );
                    },
                    Err(_) => {},
                }
            }
        },
    }
}

proof fn lemma_branch_pseudo_rule_wf(s: Seq<char>, i: int)
    ensures
        spec_parse_branch_pseudo(s, i) matches ParseOut::Matched(t, e) ==> record_wf(t),
{
}

proof fn lemma_imm_rule_wf(s: Seq<char>, i: int)
    ensures
        spec_parse_imm_instr(s, i) matches ParseOut::Matched(t, e) ==> record_wf(t),
{
    let (lab, i0) = spec_opt_label(s, i);
    match spec_mne_token(s, i0) {
        None => {},
        Some((mne, e0)) => {
            if is_imm_mne(mne) {
                match crate::parser::spec_shape_rri(s, e0) {
                    Ok(x) => {
                        keyword_facts();
                        lemma_instr_of_imm(
                            InstructionDataV {
                                mne,
                                rd: Some(x.0),
                                rs1: Some(x.1),
                                rs2: None,
                                imm: Some(x.2),
                            },
                        );
                    },
                    Err(_) => {},
                }
            }
        },
    }
}

proof fn lemma_reg_rule_wf(s: Seq<char>, i: int)
    ensures
        spec_parse_reg_instr(s, i) matches ParseOut::Matched(t, e) ==> record_wf(t),
{
    let (lab, i0) = spec_opt_label(s, i);
    match spec_mne_token(s, i0) {
        None => {},
        Some((mne, e0)) => {
            if is_reg_mne(mne) {
                match crate::parser::spec_shape_rrr(s, e0) {
                    Ok(x) => {
                        keyword_facts();
                        lemma_instr_of_reg(
                            InstructionDataV {
                                mne,
                                rd: Some(x.0),
                                rs1: Some(x.1),
                                rs2: Some(x.2),
                                imm: None,
                            },
                        );
                    },
                    Err(_) => {},
                }
            }
        },
    }
}

proof fn lemma_uj_rule_wf(s: Seq<char>, i: int)
    ensures
        spec_parse_uj(s, i) matches ParseOut::Matched(t, e) ==> record_wf(t),
{
    let (lab, i0) = spec_opt_label(s, i);
    match spec_mne_token(s, i0) {
        None => {},
        Some((mne, e0)) => {
            if crate::parser::is_uj_mne(mne) {
                match crate::parser::spec_shape_ri(s, e0) {
                    Ok(x) => {
                        keyword_facts();
                        let d = InstructionDataV {
                            mne,
                            rd: Some(x.0),
                            rs1: None,
                            rs2: None,
                            imm: Some(x.1),
                        };
                        if eq_ignore_case(mne, "jal"@) {
                            lemma_instr_of_jal(d);
                        } else {
                            lemma_instr_of_upper(d);
                        }
                    },
                    Err(_) => {},
                }
            }
        },
    }
}

proof fn lemma_jal_pseudo_rule_wf(s: Seq<char>, i: int)
    ensures
        spec_parse_jal_pseudo(s, i) matches ParseOut::Matched(t, e) ==> record_wf(t),
{
}

proof fn lemma_jalr_rule_wf(s: Seq<char>, i: int)
    ensures
        spec_parse_jalr(s, i) matches ParseOut::Matched(t, e) ==> record_wf(t),
{
    let (lab, i0) = spec_opt_label(s, i);
    match spec_mne_token(s, i0) {
        None => {},
        Some((mne, e0)) => {
            if eq_ignore_case(mne, "jalr"@) {
                match crate::parser::spec_shape_mem(s, e0) {
                    Ok(x) => {
                        keyword_facts();
                        lemma_instr_of_jalr(
                            InstructionDataV {
                                mne,
                                rd: Some(x.0),
                                rs1: Some(x.2),
                                rs2: None,
                                imm: Some(x.1),
                            },
                        );
                    },
                    Err(_) => {},
                }
            }
        },
    }
}

/// Every record of a successful text scan satisfies the descriptor
/// invariant.
pub proof fn lemma_parse_records_wf(s: Seq<char>, i: int, ts: Seq<TextV>, e: int, m: int)
    requires
        0 <= i,
        spec_parse_text_from(s, i) == TextScan::Done(ts, e),
        0 <= m < ts.len(),
    ensures
        record_wf(ts[m]),
    decreases s.len() - i,
{
    match spec_parse_rules(s, i) {
        ParseOut::Matched(t, end) => {
            if i < end <= s.len() {
                lemma_rules_wf(s, i);
                if m > 0 {
                    match spec_parse_text_from(s, end) {
                        TextScan::Done(rest, e2) => {
                            lemma_parse_records_wf(s, end, rest, e2, m - 1);
                        },
                        _ => {
                            assert(false);
                        },
                    }
                }
            }
        },
        _ => {},
    }
}

/// With records the grammar produced, resolution hands the encoder only
/// descriptors that denote instructions: the fallback zero word in the
/// driver's encoding is unreachable.
pub proof fn lemma_grammar_records_denote(
    s: Seq<char>,
    i: int,
    ts: Seq<TextV>,
    e: int,
    defs: Seq<SymV>,
    rts: Seq<TextV>,
    m: int,
)
    requires
        0 <= i,
        spec_parse_text_from(s, i) == TextScan::Done(ts, e),
        resolve_from(ts, 0, defs) == Ok::<Seq<TextV>, ResErr>(rts),
        0 <= m < ts.len(),
    ensures
        spec_instr_of(rts[m].instruction) is Some,
{
    lemma_parse_records_wf(s, i, ts, e, m);
    crate::resolver::lemma_resolve_from_index(ts, defs, rts, 0, m);
    match ts[m].label_dst {
        None => {},
        Some(n) => {
            match lookup(defs, n) {
                None => {
                    assert(false);
                },
                Some(sym) => {
                    let t2 = match resolve_one(ts[m], m, defs) {
                        Ok(t2) => t2,
                        Err(_) => ts[m],
                    };
                    if is_branch_mne(ts[m].instruction.mne) {
                        keyword_facts();
                        if eq_ignore_case(ts[m].instruction.mne, "jal"@) {
                            assert(char_eq_ic(ts[m].instruction.mne[0], "jal"@[0]));
                            lemma_not_branch_mne(ts[m].instruction.mne, 'j');
                            assert(false);
                        }
                        lemma_instr_of_branch(t2.instruction);
                    } else {
                        lemma_instr_of_jal(t2.instruction);
                    }
                },
            }
        },
    }
}

} // verus!
