//! Two-pass symbol resolution: pass 1 assigns every label its byte offset,
//! pass 2 rewrites every label reference into the signed PC-relative
//! immediate the encoder needs.

use vstd::prelude::*;
use crate::chars::str_eq;
use crate::datadir::sum_data_len;
use crate::errors::AsmError;
use crate::instructions::InstructionDataV;
use crate::instructions::InstructionData;
use crate::parser::{branch_mne, is_branch_mne, opt_view, FullFile, FullFileV, Text, TextV, DataV};

verus! {

/// Which segment a symbol lives in.
#[derive(Debug, PartialEq, Eq, Structural, Clone, Copy)]
pub enum Segment {
    Text,
    Data,
}

/// The ghost image of a symbol table entry.
pub struct SymV {
    pub name: Seq<char>,
    pub segment: Segment,
    pub offset: u64,
}

/// One symbol table entry: a label, its segment, and its byte offset within
/// that segment.
#[derive(Debug, PartialEq, Clone)]
pub struct SymEntry {
    pub name: String,
    pub segment: Segment,
    pub offset: u64,
}

impl View for SymEntry {
    type V = SymV;

    open spec fn view(&self) -> SymV {
        SymV { name: self.name@, segment: self.segment, offset: self.offset }
    }
}

/// The label definitions among text records i..j, each at byte offset four
/// times its record index.
pub open spec fn text_defs(text: Seq<TextV>, i: int, j: int) -> Seq<SymV>
    decreases j - i,
{
    if i >= j {
        Seq::empty()
    } else {
        text_defs(text, i, j - 1) + match text[j - 1].label {
            Some(n) => seq![
                SymV { name: n, segment: Segment::Text, offset: (4 * (j - 1)) as u64 },
            ],
            None => seq![],
        }
    }
}

/// The byte offset where data record `i` starts: the bytes of the records
/// before it.
pub open spec fn data_offset(data: Seq<DataV>, i: int) -> int
    decreases i,
{
    if i <= 0 {
        0
    } else {
        data_offset(data, i - 1) + data[i - 1].data.len()
    }
}

/// The label definitions among data records i..j, each at its record's
/// byte offset.
pub open spec fn data_defs(data: Seq<DataV>, i: int, j: int) -> Seq<SymV>
    decreases j - i,
{
    if i >= j {
        Seq::empty()
    } else {
        data_defs(data, i, j - 1) + match data[j - 1].label {
            Some(n) => seq![
                SymV { name: n, segment: Segment::Data, offset: data_offset(data, j - 1) as u64 },
            ],
            None => seq![],
        }
    }
}

/// Every label definition of the unit in walk order: text records first,
/// then data records.
pub open spec fn all_defs(f: FullFileV) -> Seq<SymV> {
    text_defs(f.text, 0, f.text.len() as int) + data_defs(f.data, 0, f.data.len() as int)
}

/// The first entry of the given name, walking from the front.
pub open spec fn lookup(defs: Seq<SymV>, n: Seq<char>) -> Option<SymV>
    decreases defs.len(),
{
    if defs.len() == 0 {
        None
    } else if defs[0].name == n {
        Some(defs[0])
    } else {
        lookup(defs.drop_first(), n)
    }
}

/// Two definitions share a name.
pub open spec fn has_dup(defs: Seq<SymV>) -> bool {
    exists|i: int, j: int| 0 <= i < j < defs.len() && defs[i].name == defs[j].name
}

/// Definition `j` repeats an earlier name.
pub open spec fn dup_at(defs: Seq<SymV>, j: int) -> bool {
    exists|i: int| 0 <= i < j && defs[i].name == defs[j].name
}

/// The name of the first definition that repeats an earlier one, scanning
/// from `j` on.
pub open spec fn first_dup_from(defs: Seq<SymV>, j: int) -> Option<Seq<char>>
    decreases defs.len() - j,
{
    if j < 0 || j >= defs.len() {
        None
    } else if dup_at(defs, j) {
        Some(defs[j].name)
    } else {
        first_dup_from(defs, j + 1)
    }
}

/// The name of the first definition that repeats an earlier one.
pub open spec fn first_dup(defs: Seq<SymV>) -> Option<Seq<char>> {
    first_dup_from(defs, 0)
}

/// A name is found exactly when some definition carries it.
pub proof fn lemma_lookup_exists(defs: Seq<SymV>, n: Seq<char>)
    ensures
        lookup(defs, n) is Some <==> exists|i: int| 0 <= i < defs.len() && defs[i].name == n,
    decreases defs.len(),
{
    if defs.len() > 0 {
        lemma_lookup_exists(defs.drop_first(), n);
        if defs[0].name != n {
            if exists|i: int| 0 <= i < defs.len() && defs[i].name == n {
                let i = choose|i: int| 0 <= i < defs.len() && defs[i].name == n;
                assert(defs.drop_first()[i - 1].name == n);
            }
            if exists|i: int| 0 <= i < defs.drop_first().len() && defs.drop_first()[i].name == n {
                let i = choose|i: int|
                    0 <= i < defs.drop_first().len() && defs.drop_first()[i].name == n;
                assert(defs[i + 1].name == n);
            }
        }
    }
}

/// No definition from `j` on repeats an earlier name when the scan finds
/// nothing there.
pub proof fn lemma_first_dup_from_none(defs: Seq<SymV>, j: int, k: int)
    requires
        first_dup_from(defs, j) is None,
        0 <= j <= k < defs.len(),
    ensures
        !dup_at(defs, k),
    decreases k - j,
{
    if j < k {
        lemma_first_dup_from_none(defs, j + 1, k);
    }
}

/// A first duplicate exists exactly when any two definitions share a name.
pub proof fn lemma_first_dup_iff(defs: Seq<SymV>)
    ensures
        first_dup(defs) is Some <==> has_dup(defs),
{
    if first_dup(defs) is Some {
        lemma_first_dup_from_some(defs, 0);
    }
    if has_dup(defs) {
        let (i, j) = choose|i: int, j: int|
            0 <= i < j < defs.len() && defs[i].name == defs[j].name;
        assert(dup_at(defs, j));
        if first_dup(defs) is None {
            lemma_first_dup_from_none(defs, 0, j);
        }
    }
}

/// A found first duplicate names a definition that repeats an earlier one.
pub proof fn lemma_first_dup_from_some(defs: Seq<SymV>, j: int)
    requires
        first_dup_from(defs, j) is Some,
        0 <= j,
    ensures
        has_dup(defs),
    decreases defs.len() - j,
{
    if j < defs.len() {
        if dup_at(defs, j) {
            let i = choose|i: int| 0 <= i < j && defs[i].name == defs[j].name;
            assert(0 <= i < j < defs.len() && defs[i].name == defs[j].name);
        } else {
            lemma_first_dup_from_some(defs, j + 1);
        }
    }
}

/// Scanning for the first duplicate passes every index that repeats
/// nothing.
pub proof fn lemma_first_dup_skip(defs: Seq<SymV>, k: int)
    requires
        0 <= k < defs.len(),
        forall|j: int| 0 <= j < k ==> !dup_at(defs, j),
        dup_at(defs, k),
    ensures
        first_dup(defs) == Some(defs[k].name),
{
    lemma_first_dup_walk(defs, 0, k);
}

proof fn lemma_first_dup_walk(defs: Seq<SymV>, m: int, k: int)
    requires
        0 <= m <= k < defs.len(),
        forall|j: int| m <= j < k ==> !dup_at(defs, j),
        dup_at(defs, k),
    ensures
        first_dup_from(defs, m) == Some(defs[k].name),
    decreases k - m,
{
    if m < k {
        lemma_first_dup_walk(defs, m + 1, k);
    }
}

/// Appending a definition introduces a duplicate exactly when its name is
/// already bound.
pub proof fn lemma_has_dup_push(pre: Seq<SymV>, x: SymV)
    ensures
        has_dup(pre.push(x)) <==> has_dup(pre) || dup_at(pre.push(x), pre.len() as int),
{
    let whole = pre.push(x);
    if has_dup(whole) {
        let (i, j) = choose|i: int, j: int|
            0 <= i < j < whole.len() && whole[i].name == whole[j].name;
        if j < pre.len() {
            assert(pre[i].name == pre[j].name);
        }
    }
    if has_dup(pre) {
        let (i, j) = choose|i: int, j: int| 0 <= i < j < pre.len() && pre[i].name == pre[j].name;
        assert(whole[i].name == whole[j].name);
    }
    if dup_at(whole, pre.len() as int) {
        let i = choose|i: int|
            0 <= i < pre.len() && #[trigger] whole[i].name == whole[pre.len() as int].name;
        assert(0 <= i < pre.len() < whole.len() && whole[i].name == whole[pre.len() as int].name);
    }
}

/// Ranges of text definitions concatenate.
pub proof fn lemma_text_defs_concat(text: Seq<TextV>, i: int, k: int, j: int)
    requires
        i <= k <= j,
    ensures
        text_defs(text, i, j) == text_defs(text, i, k) + text_defs(text, k, j),
    decreases j - k,
{
    if j == k {
        assert(text_defs(text, i, k) + text_defs(text, k, j) =~= text_defs(text, i, j));
    } else {
        lemma_text_defs_concat(text, i, k, j - 1);
        assert(text_defs(text, i, k) + text_defs(text, k, j) =~= (text_defs(text, i, k)
            + text_defs(text, k, j - 1)) + (match text[j - 1].label {
            Some(n) => seq![SymV { name: n, segment: Segment::Text, offset: (4 * (j - 1)) as u64 }],
            None => seq![],
        }));
    }
}

/// Ranges of data definitions concatenate.
pub proof fn lemma_data_defs_concat(data: Seq<DataV>, i: int, k: int, j: int)
    requires
        i <= k <= j,
    ensures
        data_defs(data, i, j) == data_defs(data, i, k) + data_defs(data, k, j),
    decreases j - k,
{
    if j == k {
        assert(data_defs(data, i, k) + data_defs(data, k, j) =~= data_defs(data, i, j));
    } else {
        lemma_data_defs_concat(data, i, k, j - 1);
        assert(data_defs(data, i, k) + data_defs(data, k, j) =~= (data_defs(data, i, k)
            + data_defs(data, k, j - 1)) + (match data[j - 1].label {
            Some(n) => seq![
                SymV { name: n, segment: Segment::Data, offset: data_offset(data, j - 1) as u64 },
            ],
            None => seq![],
        }));
    }
}

/// Data offsets only grow along the walk.
pub proof fn lemma_data_offset_mono(data: Seq<DataV>, i: int, j: int)
    requires
        0 <= i <= j,
    ensures
        data_offset(data, i) <= data_offset(data, j),
    decreases j - i,
{
    if i < j {
        lemma_data_offset_mono(data, i, j - 1);
    }
}

/// The offset past the last data record is the total byte count.
pub proof fn lemma_data_offset_total(data: Seq<DataV>)
    ensures
        data_offset(data, data.len() as int) == sum_data_len(data),
    decreases data.len(),
{
    if data.len() > 0 {
        lemma_data_offset_total(data.drop_last());
        lemma_data_offset_drop_last(data, data.len() - 1);
    }
}

proof fn lemma_data_offset_drop_last(data: Seq<DataV>, i: int)
    requires
        0 <= i <= data.len() - 1,
    ensures
        data_offset(data.drop_last(), i) == data_offset(data, i),
    decreases i,
{
    if i > 0 {
        lemma_data_offset_drop_last(data, i - 1);
    }
}

/// Whether a name is already bound in the table.
fn table_holds(tbl: &Vec<SymEntry>, name: &str) -> (r: bool)
    ensures
        r == (lookup(tbl@.map_values(|e: SymEntry| e@), name@) is Some),
{
    let ghost defs = tbl@.map_values(|e: SymEntry| e@);
    proof {
        lemma_lookup_exists(defs, name@);
    }
    let mut i: usize = 0;
    while i < tbl.len()
        invariant
            i <= tbl@.len(),
            defs == tbl@.map_values(|e: SymEntry| e@),
            forall|j: int| 0 <= j < i ==> defs[j].name != name@,
        decreases tbl@.len() - i,
    {
        if str_eq(tbl[i].name.as_str(), name) {
            proof {
                lemma_lookup_exists(defs, name@);
                assert(defs[i as int].name == name@);
            }
            return true;
        }
        i = i + 1;
    }
    false
}

} // verus!

verus! {

/// Pass 1 of resolution: walks the records in order, text segment then data
/// segment, binding each defined label to its byte offset; fails with
/// `DuplicateLabel` carrying the first name bound twice.
pub fn build_symbol_table(file: &FullFile) -> (r: Result<Vec<SymEntry>, AsmError>)
    requires
        file@.text.len() <= 0x1000_0000_0000_0000,
        sum_data_len(file@.data) <= 0x4000_0000_0000_0000,
    ensures
        match r {
            Ok(tbl) => tbl@.map_values(|e: SymEntry| e@) == all_defs(file@) && !has_dup(
                all_defs(file@),
            ),
            Err(e) => e matches AsmError::DuplicateLabel(n) && first_dup(all_defs(file@)) == Some(
                n@,
            ) && has_dup(all_defs(file@)),
        },
{
    let ghost f = file@;
    let ghost defs_all = all_defs(f);
    let ghost tend = f.text.len() as int;
    let ghost dend = f.data.len() as int;
    let mut tbl: Vec<SymEntry> = Vec::new();
    let mut i: usize = 0;
    let tlen = file.text.len();
    let dlen = file.data.len();
    proof {
        assert(f.text.len() == file.text@.len());
    }
    while i < tlen
        invariant
            i <= tlen,
            tlen == f.text.len(),
            dlen == f.data.len(),
            f == file@,
            defs_all == all_defs(f),
            tend == f.text.len() as int,
            dend == f.data.len() as int,
            f.text.len() <= 0x1000_0000_0000_0000,
            sum_data_len(f.data) <= 0x4000_0000_0000_0000,
            tbl@.map_values(|e: SymEntry| e@) == text_defs(f.text, 0, i as int),
            !has_dup(text_defs(f.text, 0, i as int)),
        decreases tlen - i,
    {
        let ghost pre = tbl@.map_values(|e: SymEntry| e@);
        match &file.text[i].label {
            None => {
                proof {
                    assert(text_defs(f.text, 0, i + 1) =~= pre);
                }
            },
            Some(name) => {
                let ghost x = SymV {
                    name: name@,
                    segment: Segment::Text,
                    offset: (4 * (i as int)) as u64,
                };
                proof {
                    assert(text_defs(f.text, 0, i + 1) =~= pre.push(x));
                }
                if table_holds(&tbl, name.as_str()) {
                    proof {
                        lemma_lookup_exists(pre, name@);
                        lemma_text_defs_concat(f.text, 0, i + 1, tend);
                        let rest = text_defs(f.text, i + 1, tend) + data_defs(f.data, 0, dend);
                        assert(defs_all =~= pre.push(x) + rest);
                        assert forall|j: int| 0 <= j < pre.len() implies !dup_at(defs_all, j) by {
                            if dup_at(defs_all, j) {
                                let m = choose|m: int|
                                    0 <= m < j && defs_all[m].name == defs_all[j].name;
                                assert(pre[m].name == pre[j].name);
                                assert(has_dup(pre));
                            }
                        }
                        let j0 = choose|j: int|
                            0 <= j < pre.len() && #[trigger] pre[j].name == name@;
                        assert(defs_all[j0].name == defs_all[pre.len() as int].name);
                        assert(dup_at(defs_all, pre.len() as int));
                        lemma_first_dup_skip(defs_all, pre.len() as int);
                        lemma_first_dup_iff(defs_all);
                    }
                    return Err(AsmError::DuplicateLabel(name.clone()));
                }
                proof {
                    lemma_lookup_exists(pre, name@);
                    lemma_has_dup_push(pre, x);
                    if dup_at(pre.push(x), pre.len() as int) {
                        let m = choose|m: int|
                            0 <= m < pre.len() && #[trigger] pre.push(x)[m].name == pre.push(
                                x,
                            )[pre.len() as int].name;
                        assert(pre[m].name == name@);
                    }
                }
                let off: u64 = 4 * (i as u64);
                let ghost prev_tbl = tbl@;
                tbl.push(SymEntry { name: name.clone(), segment: Segment::Text, offset: off });
                proof {
                    assert(tbl@.map_values(|e: SymEntry| e@) =~= pre.push(x));
                }
            },
        }
        i = i + 1;
    }
    proof {
        assert(text_defs(f.text, 0, tlen as int) == text_defs(f.text, 0, tend));
    }
    let mut doff: u64 = 0;
    let mut k: usize = 0;
    proof {
        assert(data_defs(f.data, 0, 0) =~= Seq::<SymV>::empty());
        assert(tbl@.map_values(|e: SymEntry| e@) =~= text_defs(f.text, 0, tend) + data_defs(
            f.data,
            0,
            0,
        ));
    }
    while k < dlen
        invariant
            k <= dlen,
            tlen == f.text.len(),
            dlen == f.data.len(),
            f == file@,
            defs_all == all_defs(f),
            tend == f.text.len() as int,
            dend == f.data.len() as int,
            f.text.len() <= 0x1000_0000_0000_0000,
            sum_data_len(f.data) <= 0x4000_0000_0000_0000,
            doff == data_offset(f.data, k as int),
            tbl@.map_values(|e: SymEntry| e@) == text_defs(f.text, 0, tend) + data_defs(
                f.data,
                0,
                k as int,
            ),
            !has_dup(tbl@.map_values(|e: SymEntry| e@)),
        decreases dlen - k,
    {
        let ghost pre = tbl@.map_values(|e: SymEntry| e@);
        proof {
            lemma_data_offset_mono(f.data, k + 1, dend);
            lemma_data_offset_total(f.data);
        }
        match &file.data[k].label {
            None => {
                proof {
                    assert(data_defs(f.data, 0, k + 1) =~= data_defs(f.data, 0, k as int));
                }
            },
            Some(name) => {
                let ghost x = SymV { name: name@, segment: Segment::Data, offset: doff };
                proof {
                    assert(data_defs(f.data, 0, k + 1) =~= data_defs(f.data, 0, k as int).push(x));
                    assert(pre.push(x) =~= text_defs(f.text, 0, tend) + data_defs(f.data, 0, k + 1));
                }
                if table_holds(&tbl, name.as_str()) {
                    proof {
                        lemma_lookup_exists(pre, name@);
                        lemma_data_defs_concat(f.data, 0, k + 1, dend);
                        let rest = data_defs(f.data, k + 1, dend);
                        assert(defs_all =~= pre.push(x) + rest);
                        assert forall|j: int| 0 <= j < pre.len() implies !dup_at(defs_all, j) by {
                            if dup_at(defs_all, j) {
                                let m = choose|m: int|
                                    0 <= m < j && defs_all[m].name == defs_all[j].name;
                                assert(pre[m].name == pre[j].name);
                                assert(has_dup(pre));
                            }
                        }
                        let j0 = choose|j: int|
                            0 <= j < pre.len() && #[trigger] pre[j].name == name@;
                        assert(defs_all[j0].name == defs_all[pre.len() as int].name);
                        assert(dup_at(defs_all, pre.len() as int));
                        lemma_first_dup_skip(defs_all, pre.len() as int);
                        lemma_first_dup_iff(defs_all);
                    }
                    return Err(AsmError::DuplicateLabel(name.clone()));
                }
                proof {
                    lemma_lookup_exists(pre, name@);
                    lemma_has_dup_push(pre, x);
                    if dup_at(pre.push(x), pre.len() as int) {
                        let m = choose|m: int|
                            0 <= m < pre.len() && #[trigger] pre.push(x)[m].name == pre.push(
                                x,
                            )[pre.len() as int].name;
                        assert(pre[m].name == name@);
                    }
                }
                tbl.push(SymEntry { name: name.clone(), segment: Segment::Data, offset: doff });
                proof {
                    assert(tbl@.map_values(|e: SymEntry| e@) =~= pre.push(x));
                }
            },
        }
        doff = doff + (file.data[k].data.len() as u64);
        k = k + 1;
    }
    proof {
        assert(tbl@.map_values(|e: SymEntry| e@) =~= defs_all);
    }
    Ok(tbl)
}

} // verus!

verus! {

/// Why resolution of a record fails.
pub enum ResErr {
    /// The referenced name is absent from the table; carries it.
    Undef(Seq<char>),
    /// The PC-relative immediate does not fit the format's signed field, or
    /// is odd.
    OutOfRange,
}

/// The 32-bit two's-complement pattern of a signed byte offset.
pub open spec fn to_imm32(diff: int) -> u32 {
    if diff >= 0 {
        diff as u32
    } else {
        (diff + 0x1_0000_0000) as u32
    }
}

/// One record resolved against the table. A record without a reference
/// stands unchanged. One with a reference gets the immediate
/// offset(L) − 4·index — the signed byte distance from the referencing
/// instruction to the label — provided the label is defined, the distance is
/// even, and it fits the format's signed field: 13 bits for a branch, 21 for
/// a jump. A label defined in the data segment resolves the same way,
/// against its data-segment offset: the two segments' counters are not
/// otherwise related, and such a distance may be odd, in which case the
/// parity check rejects it.
pub open spec fn resolve_one(t: TextV, idx: int, defs: Seq<SymV>) -> Result<TextV, ResErr> {
    match t.label_dst {
        None => Ok(t),
        Some(n) => match lookup(defs, n) {
            None => Err(ResErr::Undef(n)),
            Some(sym) => {
                let diff = sym.offset - 4 * idx;
                let fits = if is_branch_mne(t.instruction.mne) {
                    -4096 <= diff <= 4095
                } else {
                    -0x100000 <= diff <= 0xFFFFF
                };
                if fits && diff % 2 == 0 {
                    Ok(
                        TextV {
                            instruction: InstructionDataV {
                                mne: t.instruction.mne,
                                rd: t.instruction.rd,
                                rs1: t.instruction.rs1,
                                rs2: t.instruction.rs2,
                                imm: Some(to_imm32(diff)),
                            },
                            label: t.label,
                            label_dst: None,
                        },
                    )
                } else {
                    Err(ResErr::OutOfRange)
                }
            },
        },
    }
}

/// The records from `idx` on, resolved in order; the first failure wins.
pub open spec fn resolve_from(text: Seq<TextV>, idx: int, defs: Seq<SymV>) -> Result<
    Seq<TextV>,
    ResErr,
>
    decreases text.len() - idx,
{
    if idx < 0 || idx >= text.len() {
        Ok(Seq::empty())
    } else {
        match resolve_one(text[idx], idx, defs) {
            Err(e) => Err(e),
            Ok(t2) => match resolve_from(text, idx + 1, defs) {
                Err(e) => Err(e),
                Ok(rest) => Ok(seq![t2] + rest),
            },
        }
    }
}

/// The first entry of the given name leads the table's walk.
pub proof fn lemma_lookup_first(defs: Seq<SymV>, n: Seq<char>, i: int)
    requires
        0 <= i < defs.len(),
        forall|j: int| 0 <= j < i ==> defs[j].name != n,
        defs[i].name == n,
    ensures
        lookup(defs, n) == Some(defs[i]),
    decreases i,
{
    if i > 0 {
        assert forall|j: int| 0 <= j < i - 1 implies defs.drop_first()[j].name != n by {
            assert(defs.drop_first()[j] == defs[j + 1]);
        }
        assert(defs.drop_first()[i - 1] == defs[i]);
        lemma_lookup_first(defs.drop_first(), n, i - 1);
    }
}

/// Finds a name's first entry in the table.
fn find_entry(tbl: &Vec<SymEntry>, name: &str) -> (r: Option<(Segment, u64)>)
    ensures
        match r {
            Some((seg, off)) => lookup(tbl@.map_values(|e: SymEntry| e@), name@) matches Some(sym)
                && sym.segment == seg && sym.offset == off,
            None => lookup(tbl@.map_values(|e: SymEntry| e@), name@) is None,
        },
{
    let ghost defs = tbl@.map_values(|e: SymEntry| e@);
    let mut i: usize = 0;
    while i < tbl.len()
        invariant
            i <= tbl@.len(),
            defs == tbl@.map_values(|e: SymEntry| e@),
            forall|j: int| 0 <= j < i ==> defs[j].name != name@,
        decreases tbl@.len() - i,
    {
        if str_eq(tbl[i].name.as_str(), name) {
            proof {
                lemma_lookup_first(defs, name@, i as int);
            }
            return Some((tbl[i].segment, tbl[i].offset));
        }
        i = i + 1;
    }
    proof {
        lemma_lookup_exists(defs, name@);
    }
    None
}

/// Clones an optional owned string, view preserved.
fn clone_opt_string(o: &Option<String>) -> (r: Option<String>)
    ensures
        opt_view(r) == opt_view(*o),
{
    match o {
        Some(x) => Some(x.clone()),
        None => None,
    }
}

/// Clones a record, view preserved.
fn clone_text(t: &Text) -> (r: Text)
    ensures
        r@ == t@,
{
    Text {
        instruction: InstructionData {
            mne: t.instruction.mne.clone(),
            rd: t.instruction.rd,
            rs1: t.instruction.rs1,
            rs2: t.instruction.rs2,
            imm: t.instruction.imm,
        },
        label: clone_opt_string(&t.label),
        label_dst: clone_opt_string(&t.label_dst),
    }
}

/// Pass 2 of resolution: rewrites every label reference into the concrete
/// PC-relative immediate, leaving other records unchanged; fails with
/// `UndefinedLabel` or `ImmediateOutOfRange` at the first offending record.
pub fn resolve_references(text: &Vec<Text>, tbl: &Vec<SymEntry>) -> (r: Result<Vec<Text>, AsmError>)
    requires
        text@.len() <= 0x1000_0000_0000_0000,
    ensures
        ({
            let tv = text@.map_values(|t: Text| t@);
            let defs = tbl@.map_values(|e: SymEntry| e@);
            match r {
                Ok(out) => resolve_from(tv, 0, defs) == Ok::<Seq<TextV>, ResErr>(
                    out@.map_values(|t: Text| t@),
                ),
                Err(e) => match resolve_from(tv, 0, defs) {
                    Ok(_) => false,
                    Err(ResErr::Undef(n)) => e matches AsmError::UndefinedLabel(m) && m@ == n,
                    Err(ResErr::OutOfRange) => e is ImmediateOutOfRange,
                },
            }
        }),
{
    let ghost tv = text@.map_values(|t: Text| t@);
    let ghost defs = tbl@.map_values(|e: SymEntry| e@);
    let mut out: Vec<Text> = Vec::new();
    let mut i: usize = 0;
    let n = text.len();
    while i < n
        invariant
            i <= n,
            n == text@.len(),
            text@.len() <= 0x1000_0000_0000_0000,
            tv == text@.map_values(|t: Text| t@),
            defs == tbl@.map_values(|e: SymEntry| e@),
            out@.len() == i,
            (match resolve_from(tv, i as int, defs) {
                Ok(rest) => resolve_from(tv, 0, defs) == Ok::<Seq<TextV>, ResErr>(
                    out@.map_values(|t: Text| t@) + rest,
                ),
                Err(e) => resolve_from(tv, 0, defs) == Err::<Seq<TextV>, ResErr>(e),
            }),
        decreases n - i,
    {
        let t = &text[i];
        proof {
            assert(tv[i as int] == text@[i as int]@);
        }
        let resolved: Text = match &t.label_dst {
            None => clone_text(t),
            Some(nm) => {
                match find_entry(tbl, nm.as_str()) {
                    None => {
                        return Err(AsmError::UndefinedLabel(nm.clone()));
                    },
                    Some((seg, off)) => {
                        let diff: i128 = (off as i128) - 4 * (i as i128);
                        proof {
                            let o = off as int;
                            let ii = i as int;
                            vstd::arithmetic::div_mod::lemma_mod_multiples_vanish(-2 * ii, o, 2);
                            assert(2 * (-2 * ii) + o == o - 4 * ii);
                        }
                        let isb = branch_mne(t.instruction.mne.as_str());
                        let fits = if isb {
                            -4096 <= diff && diff <= 4095
                        } else {
                            -0x100000 <= diff && diff <= 0xFFFFF
                        };
                        if fits && off % 2 == 0 {
                            let v: u32 = if diff >= 0 {
                                #[verifier::truncate] (diff as u32)
                            } else {
                                #[verifier::truncate] ((diff + 0x1_0000_0000) as u32)
                            };
                            Text {
                                instruction: InstructionData {
                                    mne: t.instruction.mne.clone(),
                                    rd: t.instruction.rd,
                                    rs1: t.instruction.rs1,
                                    rs2: t.instruction.rs2,
                                    imm: Some(v),
                                },
                                label: clone_opt_string(&t.label),
                                label_dst: None,
                            }
                        } else {
                            return Err(AsmError::ImmediateOutOfRange);
                        }
                    },
                }
            },
        };
        proof {
            let prev = out@.map_values(|t: Text| t@);
            assert(resolve_one(tv[i as int], i as int, defs) == Ok::<TextV, ResErr>(resolved@));
            match resolve_from(tv, i + 1, defs) {
                Ok(rest2) => {
                    assert(prev + (seq![resolved@] + rest2) =~= prev.push(resolved@) + rest2);
                },
                Err(_) => {},
            }
        }
        let ghost prev_seq = out@;
        out.push(resolved);
        proof {
            assert(out@.map_values(|t: Text| t@) =~= prev_seq.map_values(|t: Text| t@).push(
                out@[prev_seq.len() as int]@,
            ));
        }
        i = i + 1;
    }
    proof {
        assert(out@.map_values(|t: Text| t@) + Seq::<TextV>::empty() =~= out@.map_values(
            |t: Text| t@,
        ));
    }
    Ok(out)
}

} // verus!

verus! {

/// Where a successful resolution puts each record: record `idx` of the
/// output is exactly record `idx` of the input resolved at its own index.
pub proof fn lemma_resolve_from_index(
    text: Seq<TextV>,
    defs: Seq<SymV>,
    rts: Seq<TextV>,
    j: int,
    idx: int,
)
    requires
        0 <= j <= idx < text.len(),
        resolve_from(text, j, defs) == Ok::<Seq<TextV>, ResErr>(rts),
    ensures
        rts.len() == text.len() - j,
        resolve_one(text[idx], idx, defs) matches Ok(t2) && rts[idx - j] == t2,
    decreases idx - j,
{
    let rest = match resolve_from(text, j + 1, defs) {
        Ok(rs) => rs,
        Err(_) => Seq::empty(),
    };
    lemma_resolve_from_len(text, defs, j + 1);
    if j < idx {
        lemma_resolve_from_index(text, defs, rest, j + 1, idx);
    }
}

/// A successful resolution yields one record per input record.
pub proof fn lemma_resolve_from_len(text: Seq<TextV>, defs: Seq<SymV>, j: int)
    requires
        0 <= j,
    ensures
        resolve_from(text, j, defs) matches Ok(rs) ==> rs.len() == if j <= text.len() {
            text.len() - j
        } else {
            0
        },
    decreases text.len() - j,
{
    if j < text.len() {
        lemma_resolve_from_len(text, defs, j + 1);
    }
}

/// The resolver invariant: when resolution succeeds, every record that
/// referenced a label carries exactly the immediate
/// offset(L) − offset(referencing instruction), as a 32-bit two's-complement
/// pattern — whether the label was defined before or after the reference.
pub proof fn lemma_resolved_offsets(
    text: Seq<TextV>,
    defs: Seq<SymV>,
    rts: Seq<TextV>,
    idx: int,
    n: Seq<char>,
)
    requires
        resolve_from(text, 0, defs) == Ok::<Seq<TextV>, ResErr>(rts),
        0 <= idx < text.len(),
        text[idx].label_dst == Some(n),
    ensures
        lookup(defs, n) matches Some(sym) && rts[idx].instruction.imm == Some(
            to_imm32(sym.offset - 4 * idx),
        ),
{
    lemma_resolve_from_index(text, defs, rts, 0, idx);
}

/// Every symbol the text segment defines sits at a multiple of four bytes.
pub proof fn lemma_text_defs_aligned(text: Seq<TextV>, j: int, m: int)
    requires
        0 <= j <= text.len(),
        text.len() <= 0x1000_0000_0000_0000,
        0 <= m < text_defs(text, 0, j).len(),
    ensures
        text_defs(text, 0, j)[m].segment == Segment::Text,
        text_defs(text, 0, j)[m].offset % 4 == 0,
    decreases j,
{
    if j > 0 && m < text_defs(text, 0, j - 1).len() {
        lemma_text_defs_aligned(text, j - 1, m);
    }
}

/// Every symbol the data segment defines carries the data segment's tag.
pub proof fn lemma_data_defs_segment(data: Seq<DataV>, j: int, m: int)
    requires
        0 <= j <= data.len(),
        0 <= m < data_defs(data, 0, j).len(),
    ensures
        data_defs(data, 0, j)[m].segment == Segment::Data,
    decreases j,
{
    if j > 0 && m < data_defs(data, 0, j - 1).len() {
        lemma_data_defs_segment(data, j - 1, m);
    }
}

/// What a lookup returns is an entry of the table.
pub proof fn lemma_lookup_is_entry(defs: Seq<SymV>, n: Seq<char>)
    requires
        lookup(defs, n) is Some,
    ensures
        exists|m: int| 0 <= m < defs.len() && defs[m] == lookup(defs, n)->0,
    decreases defs.len(),
{
    if defs.len() > 0 && defs[0].name != n {
        lemma_lookup_is_entry(defs.drop_first(), n);
        let m = choose|m: int|
            0 <= m < defs.drop_first().len() && defs.drop_first()[m] == lookup(
                defs.drop_first(),
                n,
            )->0;
        assert(defs[m + 1] == lookup(defs, n)->0);
    }
}

/// Branch and jump immediates are always even — indeed multiples of four for
/// targets in the text segment. A label defined at an instruction sits at a
/// multiple of four bytes, and so does the referencing instruction, so
/// resolving a label at an odd byte distance is impossible by construction.
pub proof fn lemma_resolved_imm_aligned(f: FullFileV, rts: Seq<TextV>, idx: int, n: Seq<char>)
    requires
        f.text.len() <= 0x1000_0000_0000_0000,
        resolve_from(f.text, 0, all_defs(f)) == Ok::<Seq<TextV>, ResErr>(rts),
        0 <= idx < f.text.len(),
        f.text[idx].label_dst == Some(n),
        lookup(all_defs(f), n) matches Some(sym) && sym.segment == Segment::Text,
    ensures
        rts[idx].instruction.imm matches Some(v) && v % 4 == 0,
{
    let defs = all_defs(f);
    let sym = lookup(defs, n)->0;
    lemma_resolved_offsets(f.text, defs, rts, idx, n);
    lemma_resolve_from_index(f.text, defs, rts, 0, idx);
    lemma_lookup_is_entry(defs, n);
    let m = choose|m: int| 0 <= m < defs.len() && defs[m] == sym;
    let tlen = text_defs(f.text, 0, f.text.len() as int).len();
    if m < tlen {
        lemma_text_defs_aligned(f.text, f.text.len() as int, m);
    } else {
        lemma_data_defs_segment(f.data, f.data.len() as int, m - tlen);
        assert(false);
    }
    let diff = sym.offset - 4 * idx;
    assert(diff % 4 == 0) by (nonlinear_arith)
        requires
            diff == sym.offset - 4 * idx,
            sym.offset % 4 == 0,
            sym.offset >= 0,
    ;
    if diff >= 0 {
        assert(to_imm32(diff) % 4 == 0);
    } else {
        assert((diff + 0x1_0000_0000) % 4 == 0) by (nonlinear_arith)
            requires
                diff % 4 == 0,
        ;
        assert(to_imm32(diff) % 4 == 0);
    }
}

/// Whether some record references a name the table does not hold.
pub open spec fn has_undefined_ref(text: Seq<TextV>, defs: Seq<SymV>) -> bool {
    exists|i: int|
        0 <= i < text.len() && (#[trigger] text[i].label_dst matches Some(n) && lookup(defs, n)
            is None)
}

/// Every reference a record makes to a defined label passes its range and
/// parity checks.
pub open spec fn all_refs_in_range(text: Seq<TextV>, defs: Seq<SymV>) -> bool {
    forall|i: int|
        0 <= i < text.len() ==> (#[trigger] text[i].label_dst matches Some(n) ==> (lookup(defs, n)
            matches Some(sym) ==> resolve_one(text[i], i, defs) is Ok))
}

/// A resolution that succeeds defined every referenced name.
pub proof fn lemma_resolve_ok_all_defined(text: Seq<TextV>, defs: Seq<SymV>, j: int)
    requires
        0 <= j,
        resolve_from(text, j, defs) is Ok,
    ensures
        forall|i: int|
            j <= i < text.len() ==> !(#[trigger] text[i].label_dst matches Some(n) && lookup(
                defs,
                n,
            ) is None),
    decreases text.len() - j,
{
    if j < text.len() {
        lemma_resolve_ok_all_defined(text, defs, j + 1);
    }
}

/// An `UndefinedLabel` failure names a label some record references and the
/// table does not hold.
pub proof fn lemma_undef_err_is_real(text: Seq<TextV>, defs: Seq<SymV>, j: int, n: Seq<char>)
    requires
        0 <= j,
        resolve_from(text, j, defs) == Err::<Seq<TextV>, ResErr>(ResErr::Undef(n)),
    ensures
        has_undefined_ref(text, defs),
    decreases text.len() - j,
{
    if j < text.len() {
        match resolve_one(text[j], j, defs) {
            Err(e) => {
                assert(text[j].label_dst matches Some(m) && lookup(defs, m) is None);
            },
            Ok(_) => {
                lemma_undef_err_is_real(text, defs, j + 1, n);
            },
        }
    }
}

/// When every reference to a defined label is in range, `UndefinedLabel` is
/// raised exactly when some record references a name absent from the table
/// at the end of pass 1.
pub proof fn lemma_undefined_iff(text: Seq<TextV>, defs: Seq<SymV>)
    requires
        all_refs_in_range(text, defs),
    ensures
        (resolve_from(text, 0, defs) matches Err(e) && e is Undef) <==> has_undefined_ref(
            text,
            defs,
        ),
{
    lemma_undefined_iff_from(text, defs, 0);
    match resolve_from(text, 0, defs) {
        Err(ResErr::Undef(n)) => {
            lemma_undef_err_is_real(text, defs, 0, n);
        },
        _ => {},
    }
    if has_undefined_ref(text, defs) {
        let i = choose|i: int|
            0 <= i < text.len() && (#[trigger] text[i].label_dst matches Some(n) && lookup(defs, n)
                is None);
        if resolve_from(text, 0, defs) is Ok {
            lemma_resolve_ok_all_defined(text, defs, 0);
        }
    }
}

proof fn lemma_undefined_iff_from(text: Seq<TextV>, defs: Seq<SymV>, j: int)
    requires
        0 <= j,
        all_refs_in_range(text, defs),
    ensures
        resolve_from(text, j, defs) matches Err(e) ==> e is Undef,
    decreases text.len() - j,
{
    if j < text.len() {
        lemma_undefined_iff_from(text, defs, j + 1);
    }
}

} // verus!

verus! {

/// The signed byte distance a 13-bit branch immediate pattern denotes.
pub open spec fn signed13(x: u32) -> int {
    if x < 0x1000 {
        x as int
    } else {
        x as int - 0x2000
    }
}

/// The signed byte distance a 21-bit jump immediate pattern denotes.
pub open spec fn signed21(x: u32) -> int {
    if x < 0x100000 {
        x as int
    } else {
        x as int - 0x200000
    }
}

/// Round trip through the branch word: placing the resolver's
/// two's-complement byte distance into a branch word and reading it back
/// through the inverse shuffle yields a pattern denoting exactly that
/// distance.
pub proof fn lemma_branch_resolved_round_trip(funct3: u32, rs1: u32, rs2: u32, diff: int)
    requires
        funct3 < 8,
        rs1 < 32,
        rs2 < 32,
        -4096 <= diff <= 4095,
        diff % 2 == 0,
    ensures
        signed13(
            crate::btype::btype_word_imm(
                crate::btype::btype_word(funct3, rs1, rs2, to_imm32(diff)),
            ),
        ) == diff,
{
    let v = to_imm32(diff);
    assert(crate::btype::btype_word_imm(crate::btype::btype_word(funct3, rs1, rs2, v)) == v
        % 0x2000) by (bit_vector)
        requires
            funct3 < 8,
            rs1 < 32,
            rs2 < 32,
            v % 2 == 0,
    ;
    if diff >= 0 {
        assert(v % 0x2000 == v) by (nonlinear_arith)
            requires
                0 <= v < 0x1000,
        ;
    } else {
        assert(v as int == diff + 0x1_0000_0000);
        vstd::arithmetic::div_mod::lemma_mod_multiples_vanish(0x80000, diff, 0x2000);
        assert(0x2000 * 0x80000 + diff == diff + 0x1_0000_0000);
        assert(diff % 0x2000 == diff + 0x2000) by (nonlinear_arith)
            requires
                -0x2000 < diff < 0,
        ;
        assert(v as int % 0x2000 == diff + 0x2000);
    }
}

/// Round trip through the jump word: the resolver's two's-complement byte
/// distance survives the jump shuffle as its 21-bit signed pattern.
pub proof fn lemma_jump_resolved_round_trip(rd: u32, diff: int)
    requires
        rd < 32,
        -0x100000 <= diff <= 0xFFFFF,
        diff % 2 == 0,
    ensures
        signed21(crate::jtype::jtype_word_imm(crate::jtype::jtype_word(rd, to_imm32(diff))))
            == diff,
{
    let v = to_imm32(diff);
    assert(crate::jtype::jtype_word_imm(crate::jtype::jtype_word(rd, v)) == v % 0x200000)
        by (bit_vector)
        requires
            rd < 32,
            v % 2 == 0,
    ;
    if diff >= 0 {
        assert(v % 0x200000 == v) by (nonlinear_arith)
            requires
                0 <= v < 0x100000,
        ;
    } else {
        assert(v as int == diff + 0x1_0000_0000);
        vstd::arithmetic::div_mod::lemma_mod_multiples_vanish(0x800, diff, 0x200000);
        assert(0x200000 * 0x800 + diff == diff + 0x1_0000_0000);
        assert(diff % 0x200000 == diff + 0x200000) by (nonlinear_arith)
            requires
                -0x200000 < diff < 0,
        ;
        assert(v as int % 0x200000 == diff + 0x200000);
    }
}

} // verus!
