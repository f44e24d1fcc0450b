//! Data directives: quoted strings and sized numeric lists, packed into the
//! bytes the data segment carries.

use vstd::prelude::*;
use crate::chars::{
    is_alnum_char,
    alnum_char,
    skip_multispace,
    skip_multispace_x,
    skip_space,
    skip_space_x,
    str_eq,
    str_eq_ic,
    eq_ignore_case,
};
use crate::numbers::{scan_number, spec_num_end, spec_num_matches, spec_num_value, NumScan};
use crate::parser::{parse_label, spec_opt_label, Data, DataSize, DataV};

verus! {

/// The byte width of a size class.
pub open spec fn size_width(size: DataSize) -> int {
    match size {
        DataSize::Byte => 1,
        DataSize::Half => 2,
        DataSize::Word => 4,
    }
}

/// The bytes one value contributes at a width: its low bytes, most
/// significant byte first.
pub open spec fn value_bytes(v: u32, size: DataSize) -> Seq<u8> {
    match size {
        DataSize::Byte => seq![v as u8],
        DataSize::Half => seq![(v >> 8) as u8, v as u8],
        DataSize::Word => seq![(v >> 24) as u8, (v >> 16) as u8, (v >> 8) as u8, v as u8],
    }
}

/// The packed bytes of a value list at a width, in list order.
pub open spec fn values_bytes(vals: Seq<u32>, size: DataSize) -> Seq<u8>
    decreases vals.len(),
{
    if vals.len() == 0 {
        Seq::empty()
    } else {
        values_bytes(vals.drop_last(), size) + value_bytes(vals.last(), size)
    }
}

/// Packing yields exactly width-many bytes per value.
pub proof fn lemma_values_bytes_len(vals: Seq<u32>, size: DataSize)
    ensures
        values_bytes(vals, size).len() == vals.len() * size_width(size),
    decreases vals.len(),
{
    if vals.len() > 0 {
        lemma_values_bytes_len(vals.drop_last(), size);
        assert((vals.len() - 1) * size_width(size) + size_width(size) == vals.len() * size_width(
            size,
        )) by (nonlinear_arith);
    }
}

/// Packs a list of 32-bit values at the stated width, most significant byte
/// first within each value, truncating each value to the width.
pub fn num_to_bytes(data: Vec<u32>, datasize: DataSize) -> (r: Vec<u8>)
    ensures
        r@ == values_bytes(data@, datasize),
{
    let mut r: Vec<u8> = Vec::new();
    let mut i: usize = 0;
    while i < data.len()
        invariant
            i <= data@.len(),
            r@ == values_bytes(data@.take(i as int), datasize),
        decreases data@.len() - i,
    {
        let v = data[i];
        proof {
            assert(data@.take(i + 1).drop_last() =~= data@.take(i as int));
            assert(data@.take(i + 1).last() == data@[i as int]);
        }
        match datasize {
            DataSize::Byte => {
                r.push(#[verifier::truncate] (v as u8));
            },
            DataSize::Half => {
                r.push(#[verifier::truncate] ((v >> 8) as u8));
                r.push(#[verifier::truncate] (v as u8));
            },
            DataSize::Word => {
                r.push(#[verifier::truncate] ((v >> 24) as u8));
                r.push(#[verifier::truncate] ((v >> 16) as u8));
                r.push(#[verifier::truncate] ((v >> 8) as u8));
                r.push(#[verifier::truncate] (v as u8));
            },
        }
        proof {
            assert(r@ =~= values_bytes(data@.take(i + 1), datasize));
        }
        i = i + 1;
    }
    proof {
        assert(data@.take(data@.len() as int) =~= data@);
    }
    r
}

/// The size class a directive names: ".word", ".half" or ".byte", matched
/// exactly.
pub open spec fn spec_parse_datasize(s: Seq<char>, i: int) -> Option<(DataSize, int)> {
    if i + 5 <= s.len() && s.subrange(i, i + 5) == ".word"@ {
        Some((DataSize::Word, i + 5))
    } else if i + 5 <= s.len() && s.subrange(i, i + 5) == ".half"@ {
        Some((DataSize::Half, i + 5))
    } else if i + 5 <= s.len() && s.subrange(i, i + 5) == ".byte"@ {
        Some((DataSize::Byte, i + 5))
    } else {
        None
    }
}

/// Scans a size directive at `i`.
pub fn parse_datasize(s: &str, i: usize) -> (r: Option<(DataSize, usize)>)
    requires
        i <= s@.len(),
    ensures
        match r {
            Some((d, p)) => spec_parse_datasize(s@, i as int) matches Some(x) && d == x.0 && p as int
                == x.1 && i < p <= s@.len(),
            None => spec_parse_datasize(s@, i as int) is None,
        },
{
    let n = s.unicode_len();
    if n - i >= 5 {
        let t = s.substring_char(i, i + 5);
        if str_eq(t, ".word") {
            return Some((DataSize::Word, i + 5));
        }
        if str_eq(t, ".half") {
            return Some((DataSize::Half, i + 5));
        }
        if str_eq(t, ".byte") {
            return Some((DataSize::Byte, i + 5));
        }
    }
    None
}

/// The outcome of scanning a comma-separated value list.
pub enum ListScan {
    /// No first value stands here.
    NoMatch,
    /// A value exceeds a 32-bit word.
    Overflow,
    /// The values and the position past the list and its trailing
    /// whitespace.
    Vals(Seq<u32>, int),
}

/// The values after one already-read value at `p`: repeatedly a comma
/// (whitespace-framed) and a further value, until none follows.
pub open spec fn spec_datalist_more(s: Seq<char>, p: int) -> ListScan
    decreases s.len() - p,
{
    let q = skip_multispace(s, p);
    if q < s.len() && s[q] == ',' {
        let r = skip_multispace(s, q + 1);
        if !spec_num_matches(s, r) {
            ListScan::Vals(seq![], p)
        } else if spec_num_value(s, r) > u32::MAX {
            ListScan::Overflow
        } else {
            let e = spec_num_end(s, r);
            if p < e <= s.len() {
                match spec_datalist_more(s, e) {
                    ListScan::Vals(rest, e2) => ListScan::Vals(
                        seq![spec_num_value(s, r) as u32] + rest,
                        e2,
                    ),
                    other => other,
                }
            } else {
                // a literal consumes text; close the walk here
                ListScan::Vals(seq![], p)
            }
        }
    } else {
        ListScan::Vals(seq![], p)
    }
}

/// A nonempty comma-separated list of numeric literals at `i`, with
/// whitespace allowed around every element, and trailing whitespace
/// consumed.
pub open spec fn spec_parse_datalist(s: Seq<char>, i: int) -> ListScan {
    let a = skip_multispace(s, i);
    if !spec_num_matches(s, a) {
        ListScan::NoMatch
    } else if spec_num_value(s, a) > u32::MAX {
        ListScan::Overflow
    } else {
        match spec_datalist_more(s, spec_num_end(s, a)) {
            ListScan::Vals(rest, p) => ListScan::Vals(
                seq![spec_num_value(s, a) as u32] + rest,
                skip_multispace(s, p),
            ),
            other => other,
        }
    }
}

/// The executable outcome of scanning a value list.
#[derive(Debug, PartialEq)]
pub enum ListOut {
    NoMatch,
    Overflow,
    Vals(Vec<u32>, usize),
}

/// Scans a nonempty comma-separated list of numeric literals at `i`. There
/// are never more values than characters consumed.
pub fn parse_datalist(s: &str, i: usize) -> (r: ListOut)
    requires
        i <= s@.len(),
    ensures
        match r {
            ListOut::NoMatch => spec_parse_datalist(s@, i as int) is NoMatch,
            ListOut::Overflow => spec_parse_datalist(s@, i as int) is Overflow,
            ListOut::Vals(vs, e) => spec_parse_datalist(s@, i as int) matches ListScan::Vals(
                xs,
                xe,
            ) && vs@ == xs && e as int == xe && i <= e <= s@.len() && vs@.len() <= e - i,
        },
{
    let n = s.unicode_len();
    let a = skip_multispace_x(s, i);
    match scan_number(s, a) {
        NumScan::NoMatch => ListOut::NoMatch,
        NumScan::Overflow => ListOut::Overflow,
        NumScan::Value(v0, e0) => {
            let mut vals: Vec<u32> = Vec::new();
            vals.push(v0);
            let mut pos = e0;
            loop
                invariant
                    i < pos <= n,
                    n == s@.len(),
                    vals@.len() >= 1,
                    vals@.len() <= pos - i,
                    vals@[0] == spec_num_value(s@, a as int) as u32,
                    a as int == skip_multispace(s@, i as int),
                    spec_num_matches(s@, a as int),
                    spec_num_value(s@, a as int) <= u32::MAX,
                    (match spec_datalist_more(s@, pos as int) {
                        ListScan::Vals(rest, e2) => spec_datalist_more(
                            s@,
                            spec_num_end(s@, a as int),
                        ) == ListScan::Vals(vals@.skip(1) + rest, e2),
                        other => spec_datalist_more(s@, spec_num_end(s@, a as int)) == other,
                    }),
                ensures
                    i < pos <= n,
                    vals@.len() <= pos - i,
                    spec_datalist_more(s@, spec_num_end(s@, a as int)) == ListScan::Vals(
                        vals@.skip(1),
                        pos as int,
                    ),
                decreases n - pos,
            {
                let q = skip_multispace_x(s, pos);
                if !(q < n && s.get_char(q) == ',') {
                    proof {
                        assert(vals@.skip(1) + Seq::<u32>::empty() =~= vals@.skip(1));
                    }
                    break ;
                }
                let r2 = skip_multispace_x(s, q + 1);
                match scan_number(s, r2) {
                    NumScan::NoMatch => {
                        proof {
                            assert(vals@.skip(1) + Seq::<u32>::empty() =~= vals@.skip(1));
                        }
                        break ;
                    },
                    NumScan::Overflow => {
                        return ListOut::Overflow;
                    },
                    NumScan::Value(v, e) => {
                        proof {
                            let old_tail = vals@.skip(1);
                            match spec_datalist_more(s@, e as int) {
                                ListScan::Vals(rest2, e3) => {
                                    assert(old_tail + (seq![v] + rest2) =~= old_tail.push(v)
                                        + rest2);
                                    assert(vals@.push(v).skip(1) =~= old_tail.push(v));
                                },
                                ListScan::NoMatch => {},
                                ListScan::Overflow => {},
                            }
                        }
                        vals.push(v);
                        pos = e;
                    },
                }
            }
            proof {
                assert(seq![vals@[0]] + vals@.skip(1) =~= vals@);
            }
            let end = skip_multispace_x(s, pos);
            ListOut::Vals(vals, end)
        },
    }
}

} // verus!

verus! {

/// The bytes of an ASCII character sequence, one byte per character.
pub open spec fn ascii_bytes(q: Seq<char>) -> Seq<u8> {
    q.map_values(|c: char| c as u8)
}

/// Where the quoted body ends: alphanumeric runs and the escape pairs \",
/// \n, \\ may follow one another; anything else ends the body.
pub open spec fn string_body_end(s: Seq<char>, i: int) -> int
    decreases s.len() - i,
{
    if 0 <= i && i < s.len() && is_alnum_char(s[i]) {
        string_body_end(s, i + 1)
    } else if 0 <= i && i + 2 <= s.len() && s[i] == '\\' && (s[i + 1] == '"' || s[i + 1] == 'n'
        || s[i + 1] == '\\') {
        string_body_end(s, i + 2)
    } else {
        i
    }
}

fn string_body_end_x(s: &str, i: usize) -> (j: usize)
    requires
        i <= s@.len(),
    ensures
        j == string_body_end(s@, i as int),
        i <= j <= s@.len(),
{
    let n = s.unicode_len();
    let mut j = i;
    loop
        invariant
            i <= j <= n,
            n == s@.len(),
            string_body_end(s@, i as int) == string_body_end(s@, j as int),
        ensures
            i <= j <= n,
            j == string_body_end(s@, i as int),
        decreases n - j,
    {
        if j < n && alnum_char(s.get_char(j)) {
            j = j + 1;
        } else if j < n && j + 1 < n && s.get_char(j) == '\\' {
            let c2 = s.get_char(j + 1);
            if c2 == '"' || c2 == 'n' || c2 == '\\' {
                j = j + 2;
            } else {
                break ;
            }
        } else {
            break ;
        }
    }
    j
}

/// Where a string directive's body starts: just past ".string" or ".asciz",
/// matched ignoring case.
pub open spec fn spec_string_dir(s: Seq<char>, a: int) -> Option<int> {
    if a + 7 <= s.len() && eq_ignore_case(s.subrange(a, a + 7), ".string"@) {
        Some(a + 7)
    } else if a + 6 <= s.len() && eq_ignore_case(s.subrange(a, a + 6), ".asciz"@) {
        Some(a + 6)
    } else {
        None
    }
}

fn string_dir_x(s: &str, a: usize) -> (r: Option<usize>)
    requires
        a <= s@.len(),
    ensures
        match r {
            Some(p) => spec_string_dir(s@, a as int) matches Some(x) && p as int == x && a < p
                <= s@.len(),
            None => spec_string_dir(s@, a as int) is None,
        },
{
    let n = s.unicode_len();
    if n - a >= 7 && str_eq_ic(s.substring_char(a, a + 7), ".string") {
        return Some(a + 7);
    }
    if n - a >= 6 && str_eq_ic(s.substring_char(a, a + 6), ".asciz") {
        return Some(a + 6);
    }
    None
}

/// The spec-level outcome of one data-segment rule at a position.
pub enum DataOut {
    NoMatch,
    BadNum,
    Matched(DataV, int),
}

/// The executable outcome of one data-segment rule at a position.
#[derive(Debug, PartialEq)]
pub enum DataRuleOut {
    NoMatch,
    BadNum,
    Matched(Data, usize),
}

/// How an executable data-rule outcome realises its spec-level outcome; a
/// matched record consumes text and carries at most four bytes per consumed
/// character.
pub open spec fn data_rule_obeys(r: DataRuleOut, sp: DataOut, len: int, i: int) -> bool {
    match r {
        DataRuleOut::NoMatch => sp is NoMatch,
        DataRuleOut::BadNum => sp is BadNum,
        DataRuleOut::Matched(d, e) => sp matches DataOut::Matched(dv, ev) && d@ == dv && e as int
            == ev && i < e <= len && dv.data.len() <= 4 * (e - i),
    }
}

/// A string line at `i`: optional label, ".string" or ".asciz", a quoted
/// body, trailing whitespace. The body's characters become its bytes,
/// escapes kept as written.
pub open spec fn spec_parse_string(s: Seq<char>, i: int) -> DataOut {
    let (lab, i0) = spec_opt_label(s, i);
    let a = skip_space(s, i0);
    match spec_string_dir(s, a) {
        None => DataOut::NoMatch,
        Some(d) => {
            let q = skip_multispace(s, d);
            if q < s.len() && s[q] == '"' {
                let b = q + 1;
                let e = string_body_end(s, b);
                if e < s.len() && s[e] == '"' {
                    DataOut::Matched(
                        DataV {
                            label: lab,
                            data: ascii_bytes(s.subrange(b, e)),
                            size: DataSize::Byte,
                        },
                        skip_multispace(s, e + 1),
                    )
                } else {
                    DataOut::NoMatch
                }
            } else {
                DataOut::NoMatch
            }
        },
    }
}

/// Scans a string line at `i`.
pub fn parse_string(s: &str, i: usize) -> (r: DataRuleOut)
    requires
        i <= s@.len(),
    ensures
        data_rule_obeys(r, spec_parse_string(s@, i as int), s@.len() as int, i as int),
{
    let n = s.unicode_len();
    let (lab, i0) = parse_label(s, i);
    let a = skip_space_x(s, i0);
    match string_dir_x(s, a) {
        None => DataRuleOut::NoMatch,
        Some(d) => {
            let q = skip_multispace_x(s, d);
            if q < n && s.get_char(q) == '"' {
                let b = q + 1;
                let e = string_body_end_x(s, b);
                if e < n && s.get_char(e) == '"' {
                    let mut bytes: Vec<u8> = Vec::new();
                    let mut j = b;
                    while j < e
                        invariant
                            b <= j <= e <= n,
                            n == s@.len(),
                            bytes@ == ascii_bytes(s@.subrange(b as int, j as int)),
                        decreases e - j,
                    {
                        let c = s.get_char(j);
                        bytes.push(#[verifier::truncate] (c as u8));
                        proof {
                            assert(s@.subrange(b as int, j + 1).drop_last() =~= s@.subrange(
                                b as int,
                                j as int,
                            ));
                            assert(bytes@ =~= ascii_bytes(s@.subrange(b as int, j + 1)));
                        }
                        j = j + 1;
                    }
                    let end = skip_multispace_x(s, e + 1);
                    DataRuleOut::Matched(Data { label: lab, data: bytes, size: DataSize::Byte }, end)
                } else {
                    DataRuleOut::NoMatch
                }
            } else {
                DataRuleOut::NoMatch
            }
        },
    }
}

/// A sized data line at `i`: optional label, ".byte", ".half" or ".word",
/// then a nonempty list of numeric values packed at that width.
pub open spec fn spec_parse_dataline(s: Seq<char>, i: int) -> DataOut {
    let (lab, i0) = spec_opt_label(s, i);
    let a = skip_space(s, i0);
    match spec_parse_datasize(s, a) {
        None => DataOut::NoMatch,
        Some((size, p)) => match spec_parse_datalist(s, p) {
            ListScan::NoMatch => DataOut::NoMatch,
            ListScan::Overflow => DataOut::BadNum,
            ListScan::Vals(vs, end) => DataOut::Matched(
                DataV { label: lab, data: values_bytes(vs, size), size },
                end,
            ),
        },
    }
}

/// Scans a sized data line at `i`.
pub fn parse_dataline(s: &str, i: usize) -> (r: DataRuleOut)
    requires
        i <= s@.len(),
    ensures
        data_rule_obeys(r, spec_parse_dataline(s@, i as int), s@.len() as int, i as int),
{
    let (lab, i0) = parse_label(s, i);
    let a = skip_space_x(s, i0);
    match parse_datasize(s, a) {
        None => DataRuleOut::NoMatch,
        Some((size, p)) => match parse_datalist(s, p) {
            ListOut::NoMatch => DataRuleOut::NoMatch,
            ListOut::Overflow => DataRuleOut::BadNum,
            ListOut::Vals(vs, end) => {
                proof {
                    lemma_values_bytes_len(vs@, size);
                }
                let bytes = num_to_bytes(vs, size);
                DataRuleOut::Matched(Data { label: lab, data: bytes, size }, end)
            },
        },
    }
}

/// The total byte count of a run of data records.
pub open spec fn sum_data_len(ds: Seq<DataV>) -> int
    decreases ds.len(),
{
    if ds.len() == 0 {
        0
    } else {
        sum_data_len(ds.drop_last()) + ds.last().data.len()
    }
}

/// The outcome of scanning the data segment from a position on.
pub enum DataScan {
    /// The records matched, and the position where neither data rule speaks
    /// any more.
    Done(Seq<DataV>, int),
    /// A rule matched up to a numeric literal that overflows.
    BadNum,
}

/// The first data rule that speaks at `i`: a string line, else a sized line.
pub open spec fn spec_data_rules(s: Seq<char>, i: int) -> DataOut {
    match spec_parse_string(s, i) {
        DataOut::NoMatch => spec_parse_dataline(s, i),
        other => other,
    }
}

fn data_rules_at(s: &str, i: usize) -> (r: DataRuleOut)
    requires
        i <= s@.len(),
    ensures
        data_rule_obeys(r, spec_data_rules(s@, i as int), s@.len() as int, i as int),
{
    match parse_string(s, i) {
        DataRuleOut::NoMatch => parse_dataline(s, i),
        other => other,
    }
}

/// The data records the grammar yields from `i` on.
pub open spec fn spec_parse_data_from(s: Seq<char>, i: int) -> DataScan
    decreases s.len() - i,
{
    match spec_data_rules(s, i) {
        DataOut::Matched(d, end) => if i < end <= s.len() {
            match spec_parse_data_from(s, end) {
                DataScan::Done(rest, e2) => DataScan::Done(seq![d] + rest, e2),
                other => other,
            }
        } else {
            // a data rule that consumes nothing cannot arise; close the walk
            DataScan::Done(seq![], i)
        },
        DataOut::NoMatch => DataScan::Done(seq![], i),
        DataOut::BadNum => DataScan::BadNum,
    }
}

/// Scans data lines from `i` while either data rule speaks. The records'
/// bytes total at most four per character consumed.
pub fn parse_data_from(s: &str, i: usize) -> (r: Result<(Vec<Data>, usize), crate::errors::AsmError>)
    requires
        i <= s@.len(),
    ensures
        match r {
            Ok((ds, e)) => spec_parse_data_from(s@, i as int) matches DataScan::Done(xs, xe)
                && ds@.map_values(|d: Data| d@) == xs && e as int == xe && i <= e <= s@.len()
                && sum_data_len(ds@.map_values(|d: Data| d@)) <= 4 * (e - i),
            Err(er) => spec_parse_data_from(s@, i as int) is BadNum && er is NumericOverflow,
        },
{
    let n = s.unicode_len();
    let mut pos = i;
    let mut out: Vec<Data> = Vec::new();
    loop
        invariant
            i <= pos <= n,
            n == s@.len(),
            sum_data_len(out@.map_values(|d: Data| d@)) <= 4 * (pos - i),
            (match spec_parse_data_from(s@, pos as int) {
                DataScan::Done(rest, e) => spec_parse_data_from(s@, i as int) == DataScan::Done(
                    out@.map_values(|d: Data| d@) + rest,
                    e,
                ),
                DataScan::BadNum => spec_parse_data_from(s@, i as int) is BadNum,
            }),
        ensures
            i <= pos <= n,
            n == s@.len(),
            spec_parse_data_from(s@, i as int) == DataScan::Done(
                out@.map_values(|d: Data| d@),
                pos as int,
            ),
            sum_data_len(out@.map_values(|d: Data| d@)) <= 4 * (pos - i),
        decreases n - pos,
    {
        match data_rules_at(s, pos) {
            DataRuleOut::NoMatch => {
                proof {
                    assert(out@.map_values(|d: Data| d@) + Seq::<DataV>::empty() =~= out@.map_values(
                        |d: Data| d@,
                    ));
                }
                break ;
            },
            DataRuleOut::BadNum => {
                return Err(crate::errors::AsmError::NumericOverflow);
            },
            DataRuleOut::Matched(d, end) => {
                proof {
                    let prev = out@.map_values(|d: Data| d@);
                    let dv = d@;
                    match spec_parse_data_from(s@, end as int) {
                        DataScan::Done(rest2, e2) => {
                            assert(prev + (seq![dv] + rest2) =~= prev.push(dv) + rest2);
                        },
                        DataScan::BadNum => {},
                    }
                    lemma_sum_data_len_push(prev, dv);
                }
                let ghost prev_seq = out@;
                out.push(d);
                proof {
                    assert(out@.map_values(|d: Data| d@) =~= prev_seq.map_values(|d: Data| d@).push(
                        out@[prev_seq.len() as int]@,
                    ));
                }
                pos = end;
            },
        }
    }
    Ok((out, pos))
}

/// Appending one record adds exactly its byte count to the total.
pub proof fn lemma_sum_data_len_push(ds: Seq<DataV>, d: DataV)
    ensures
        sum_data_len(ds.push(d)) == sum_data_len(ds) + d.data.len(),
{
    assert(ds.push(d).drop_last() =~= ds);
    assert(ds.push(d).last() == d);
}

} // verus!
