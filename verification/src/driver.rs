//! The assembler driver: parse, resolve, encode — stopping at the first
//! failure, producing no partial output.

use vstd::prelude::*;
use crate::chars::{skip_multispace, skip_multispace_x, str_eq};
use crate::datadir::{parse_data_from, spec_parse_data_from, DataScan};
use crate::errors::AsmError;
use crate::instruction::{word_bytes, Instruction};
use crate::instructions::{instr_of, spec_instr_of};
use crate::parser::{parse_text, spec_parse_text, DataV, FullFile, FullFileV, TextScan, TextV};
use crate::resolver::{
    all_defs,
    build_symbol_table,
    first_dup,
    resolve_from,
    resolve_references,
    ResErr,
};

verus! {

/// The 1-based source line a position lies on: one more than the line breaks
/// before it.
pub open spec fn line_of(s: Seq<char>, p: int) -> int
    decreases p,
{
    if p <= 0 {
        1
    } else {
        line_of(s, p - 1) + (if s[p - 1] == '\n' {
            1int
        } else {
            0int
        })
    }
}

fn line_of_x(s: &str, p: usize) -> (r: u64)
    requires
        p <= s@.len(),
        p <= 0x1000_0000_0000_0000,
    ensures
        r as int == line_of(s@, p as int),
{
    let mut r: u64 = 1;
    let mut j: usize = 0;
    while j < p
        invariant
            j <= p <= s@.len(),
            p <= 0x1000_0000_0000_0000,
            r as int == line_of(s@, j as int),
            r <= j + 1,
        decreases p - j,
    {
        if s.get_char(j) == '\n' {
            r = r + 1;
        }
        j = j + 1;
    }
    r
}

/// The machine word a resolved record encodes to; a descriptor no format
/// family claims (which the grammar never yields) encodes as zero.
pub open spec fn record_word(t: TextV) -> u32 {
    match spec_instr_of(t.instruction) {
        Some(ins) => ins.word(),
        None => 0,
    }
}

/// The text segment's bytes: each record's word, most significant byte
/// first, in source order.
pub open spec fn encode_all(ts: Seq<TextV>) -> Seq<u8>
    decreases ts.len(),
{
    if ts.len() == 0 {
        Seq::empty()
    } else {
        encode_all(ts.drop_last()) + word_bytes(record_word(ts.last()))
    }
}

/// The data segment's bytes: each record's bytes in source order.
pub open spec fn data_bytes(ds: Seq<DataV>) -> Seq<u8>
    decreases ds.len(),
{
    if ds.len() == 0 {
        Seq::empty()
    } else {
        data_bytes(ds.drop_last()) + ds.last().data
    }
}

/// What assembling denotes: the two byte streams, or the first failure.
pub enum AsmOut {
    /// The text segment's bytes and the data segment's bytes.
    Bytes(Seq<u8>, Seq<u8>),
    /// No grammar rule matches the non-blank text at this 1-based line.
    SyntaxErr(int),
    /// A numeric literal exceeds a 32-bit word.
    Overflow,
    /// A register operand names no architectural register.
    BadRegister,
    /// Two label definitions share this name.
    Dup(Seq<char>),
    /// This referenced label is defined nowhere.
    Undef(Seq<char>),
    /// A resolved immediate does not fit its field, or is odd.
    OutOfRange,
}

/// What assembling a parsed unit yields: duplicate check, reference
/// resolution, then encoding.
pub open spec fn spec_assemble_file(f: FullFileV) -> AsmOut {
    let defs = all_defs(f);
    match first_dup(defs) {
        Some(nm) => AsmOut::Dup(nm),
        None => match resolve_from(f.text, 0, defs) {
            Err(ResErr::Undef(nm)) => AsmOut::Undef(nm),
            Err(ResErr::OutOfRange) => AsmOut::OutOfRange,
            Ok(rts) => AsmOut::Bytes(encode_all(rts), data_bytes(f.data)),
        },
    }
}

/// What assembling a source text denotes, end to end: the text segment, an
/// optional ".data" section, and nothing but whitespace left over.
pub open spec fn spec_assemble(s: Seq<char>) -> AsmOut {
    match spec_parse_text(s) {
        TextScan::BadNum => AsmOut::Overflow,
        TextScan::BadReg => AsmOut::BadRegister,
        TextScan::Done(ts, p) => {
            let a = skip_multispace(s, p);
            if a + 5 <= s.len() && s.subrange(a, a + 5) == ".data"@ {
                match spec_parse_data_from(s, skip_multispace(s, a + 5)) {
                    DataScan::BadNum => AsmOut::Overflow,
                    DataScan::Done(ds, q) => if q == s.len() {
                        spec_assemble_file(FullFileV { text: ts, data: ds })
                    } else {
                        AsmOut::SyntaxErr(line_of(s, q))
                    },
                }
            } else if a == s.len() {
                spec_assemble_file(FullFileV { text: ts, data: Seq::empty() })
            } else {
                AsmOut::SyntaxErr(line_of(s, a))
            }
        },
    }
}

/// Assembles a source text into the text-segment and data-segment byte
/// streams, or the first failure encountered; nothing partial is ever
/// returned.
pub fn assemble(source: &str) -> (r: Result<(Vec<u8>, Vec<u8>), AsmError>)
    requires
        source@.len() <= 0x1000_0000_0000_0000,
    ensures
        match spec_assemble(source@) {
            AsmOut::Bytes(tb, db) => r matches Ok(p) && p.0@ == tb && p.1@ == db,
            AsmOut::SyntaxErr(l) => r matches Err(e) && e matches AsmError::SyntaxError(ll) && ll
                as int == l,
            AsmOut::Overflow => r matches Err(e) && e is NumericOverflow,
            AsmOut::BadRegister => r matches Err(e) && e is UnknownRegister,
            AsmOut::Dup(nm) => r matches Err(e) && e matches AsmError::DuplicateLabel(m) && m@
                == nm,
            AsmOut::Undef(nm) => r matches Err(e) && e matches AsmError::UndefinedLabel(m) && m@
                == nm,
            AsmOut::OutOfRange => r matches Err(e) && e is ImmediateOutOfRange,
        },
{
    let n = source.unicode_len();
    let (rest, text) = match parse_text(source) {
        Ok(p) => p,
        Err(e) => {
            return Err(e);
        },
    };
    let p = n - rest.unicode_len();
    let a = skip_multispace_x(source, p);
    let file: FullFile;
    if n - a >= 5 && str_eq(source.substring_char(a, a + 5), ".data") {
        let d0 = skip_multispace_x(source, a + 5);
        let (dvec, q) = match parse_data_from(source, d0) {
            Ok(x) => x,
            Err(e) => {
                return Err(e);
            },
        };
        if q != n {
            return Err(AsmError::SyntaxError(line_of_x(source, q)));
        }
        file = FullFile { text, data: dvec };
    } else {
        if a != n {
            return Err(AsmError::SyntaxError(line_of_x(source, a)));
        }
        proof {
            assert(Seq::<crate::parser::Data>::empty().map_values(|d: crate::parser::Data| d@)
                =~= Seq::<DataV>::empty());
        }
        file = FullFile { text, data: Vec::new() };
    }
    let tbl = match build_symbol_table(&file) {
        Ok(t) => t,
        Err(e) => {
            return Err(e);
        },
    };
    proof {
        crate::resolver::lemma_first_dup_iff(all_defs(file@));
    }
    let resolved = match resolve_references(&file.text, &tbl) {
        Ok(v) => v,
        Err(e) => {
            return Err(e);
        },
    };
    let ghost rts = resolved@.map_values(|t: crate::parser::Text| t@);
    let mut text_bytes: Vec<u8> = Vec::new();
    let mut i: usize = 0;
    while i < resolved.len()
        invariant
            i <= resolved@.len(),
            rts == resolved@.map_values(|t: crate::parser::Text| t@),
            text_bytes@ == encode_all(rts.take(i as int)),
        decreases resolved@.len() - i,
    {
        proof {
            assert(rts.take(i + 1).drop_last() =~= rts.take(i as int));
            assert(rts.take(i + 1).last() == rts[i as int]);
            assert(rts[i as int] == resolved@[i as int]@);
        }
        match instr_of(&resolved[i].instruction) {
            Some(ins) => {
                let mut b = ins.translate();
                text_bytes.append(&mut b);
            },
            None => {
                text_bytes.push(0);
                text_bytes.push(0);
                text_bytes.push(0);
                text_bytes.push(0);
                proof {
                    assert(0u32 >> 24 == 0 && 0u32 >> 16 == 0 && 0u32 >> 8 == 0) by (bit_vector);
                    assert(word_bytes(0) =~= seq![0u8, 0u8, 0u8, 0u8]);
                }
            },
        }
        proof {
            assert(text_bytes@ =~= encode_all(rts.take(i + 1)));
        }
        i = i + 1;
    }
    proof {
        assert(rts.take(rts.len() as int) =~= rts);
    }
    let ghost dvs = file.data@.map_values(|d: crate::parser::Data| d@);
    let mut dbytes: Vec<u8> = Vec::new();
    let mut k: usize = 0;
    while k < file.data.len()
        invariant
            k <= file.data@.len(),
            dvs == file.data@.map_values(|d: crate::parser::Data| d@),
            dbytes@ == data_bytes(dvs.take(k as int)),
        decreases file.data@.len() - k,
    {
        proof {
            assert(dvs.take(k + 1).drop_last() =~= dvs.take(k as int));
            assert(dvs.take(k + 1).last() == dvs[k as int]);
            assert(dvs[k as int] == file.data@[k as int]@);
        }
        let rec = &file.data[k];
        let mut j: usize = 0;
        let ghost base = dbytes@;
        while j < rec.data.len()
            invariant
                j <= rec.data@.len(),
                dbytes@ == base + rec.data@.take(j as int),
            decreases rec.data@.len() - j,
        {
            dbytes.push(rec.data[j]);
            proof {
                assert(base + rec.data@.take(j + 1) =~= (base + rec.data@.take(j as int)).push(
                    rec.data@[j as int],
                ));
            }
            j = j + 1;
        }
        proof {
            assert(rec.data@.take(rec.data@.len() as int) =~= rec.data@);
            assert(dbytes@ =~= data_bytes(dvs.take(k + 1)));
        }
        k = k + 1;
    }
    proof {
        assert(dvs.take(dvs.len() as int) =~= dvs);
    }
    Ok((text_bytes, dbytes))
}

} // verus!

verus! {

/// `DuplicateLabel` is raised exactly when two label definitions share a
/// name.
pub proof fn lemma_duplicate_iff(f: FullFileV)
    ensures
        spec_assemble_file(f) is Dup <==> crate::resolver::has_dup(all_defs(f)),
{
    crate::resolver::lemma_first_dup_iff(all_defs(f));
}

} // verus!

verus! {

/// The text segment carries exactly four bytes per record: no record's
/// encoded size ever depends on its immediate.
pub proof fn lemma_encode_all_len(ts: Seq<TextV>)
    ensures
        encode_all(ts).len() == 4 * ts.len(),
    decreases ts.len(),
{
    if ts.len() > 0 {
        lemma_encode_all_len(ts.drop_last());
    }
}

} // verus!
