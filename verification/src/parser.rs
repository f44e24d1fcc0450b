//! The assembly grammar: line records, the register alias table, and one
//! parse function per instruction form, all driven by `parse_text`.
//!
//! Every parse function is specified against a spec-level reading of the
//! grammar over the source text's character sequence; the executable code
//! returns exactly what that reading denotes.

use vstd::prelude::*;
use crate::chars::{
    alnum_end,
    alnum_end_x,
    eq_ignore_case,
    is_space_char,
    label_end,
    label_end_x,
    skip_multispace,
    skip_multispace_x,
    skip_space,
    skip_space_x,
    str_eq,
    str_eq_ic,
};
use crate::errors::AsmError;
use crate::instructions::{InstructionData, InstructionDataV};
use crate::numbers::{scan_number, spec_num_end, spec_num_matches, spec_num_value, NumScan};
use crate::types::Reg;

verus! {

/// The ghost image of a text-segment line record.
pub struct TextV {
    pub instruction: InstructionDataV,
    pub label: Option<Seq<char>>,
    pub label_dst: Option<Seq<char>>,
}

/// One text-segment line: an instruction descriptor, an optional label
/// defined on the line, and an optional label reference standing in for the
/// immediate.
#[derive(Debug, PartialEq, Clone)]
pub struct Text {
    pub instruction: InstructionData,
    pub label: Option<String>,
    pub label_dst: Option<String>,
}

/// The view of an optional owned string.
pub open spec fn opt_view(o: Option<String>) -> Option<Seq<char>> {
    match o {
        Some(l) => Some(l@),
        None => None,
    }
}

impl View for Text {
    type V = TextV;

    open spec fn view(&self) -> TextV {
        TextV {
            instruction: self.instruction@,
            label: opt_view(self.label),
            label_dst: opt_view(self.label_dst),
        }
    }
}

/// The width a data directive packs its values at.
#[derive(Debug, PartialEq, Eq, Structural, Clone, Copy)]
pub enum DataSize {
    Byte,
    Half,
    Word,
}

/// The ghost image of a data-segment line record.
pub struct DataV {
    pub label: Option<Seq<char>>,
    pub data: Seq<u8>,
    pub size: DataSize,
}

/// One data-segment line: its packed bytes, the width they were packed at,
/// and an optional label marking its start.
#[derive(Debug, PartialEq, Clone)]
pub struct Data {
    pub label: Option<String>,
    pub data: Vec<u8>,
    pub size: DataSize,
}

impl View for Data {
    type V = DataV;

    open spec fn view(&self) -> DataV {
        DataV { label: opt_view(self.label), data: self.data@, size: self.size }
    }
}

/// The ghost image of a whole parsed assembly unit.
pub struct FullFileV {
    pub text: Seq<TextV>,
    pub data: Seq<DataV>,
}

/// A whole parsed assembly unit: the text-segment records and the
/// data-segment records, each in source order.
#[derive(Debug, PartialEq, Clone)]
pub struct FullFile {
    pub text: Vec<Text>,
    pub data: Vec<Data>,
}

impl View for FullFile {
    type V = FullFileV;

    open spec fn view(&self) -> FullFileV {
        FullFileV {
            text: self.text@.map_values(|t: Text| t@),
            data: self.data@.map_values(|d: Data| d@),
        }
    }
}

/// The register index a name denotes: the numerals "0" through "31" and the
/// ABI aliases, matched exactly (no case folding).
pub open spec fn spec_str_to_reg(s: Seq<char>) -> Option<Reg> {
    if s == "0"@ || s == "zero"@ {
        Some(0)
    } else if s == "1"@ || s == "ra"@ {
        Some(1)
    } else if s == "2"@ || s == "sp"@ {
        Some(2)
    } else if s == "3"@ || s == "gp"@ {
        Some(3)
    } else if s == "4"@ || s == "tp"@ {
        Some(4)
    } else if s == "5"@ || s == "t0"@ {
        Some(5)
    } else if s == "6"@ || s == "t1"@ {
        Some(6)
    } else if s == "7"@ || s == "t2"@ {
        Some(7)
    } else if s == "8"@ || s == "s0"@ || s == "fp"@ {
        Some(8)
    } else if s == "9"@ || s == "s1"@ {
        Some(9)
    } else if s == "10"@ || s == "a0"@ {
        Some(10)
    } else if s == "11"@ || s == "a1"@ {
        Some(11)
    } else if s == "12"@ || s == "a2"@ {
        Some(12)
    } else if s == "13"@ || s == "a3"@ {
        Some(13)
    } else if s == "14"@ || s == "a4"@ {
        Some(14)
    } else if s == "15"@ || s == "a5"@ {
        Some(15)
    } else if s == "16"@ || s == "a6"@ {
        Some(16)
    } else if s == "17"@ || s == "a7"@ {
        Some(17)
    } else if s == "18"@ || s == "s2"@ {
        Some(18)
    } else if s == "19"@ || s == "s3"@ {
        Some(19)
    } else if s == "20"@ || s == "s4"@ {
        Some(20)
    } else if s == "21"@ || s == "s5"@ {
        Some(21)
    } else if s == "22"@ || s == "s6"@ {
        Some(22)
    } else if s == "23"@ || s == "s7"@ {
        Some(23)
    } else if s == "24"@ || s == "s8"@ {
        Some(24)
    } else if s == "25"@ || s == "s9"@ {
        Some(25)
    } else if s == "26"@ || s == "s10"@ {
        Some(26)
    } else if s == "27"@ || s == "s11"@ {
        Some(27)
    } else if s == "28"@ || s == "t3"@ {
        Some(28)
    } else if s == "29"@ || s == "t4"@ {
        Some(29)
    } else if s == "30"@ || s == "t5"@ {
        Some(30)
    } else if s == "31"@ || s == "t6"@ {
        Some(31)
    } else {
        None
    }
}

/// Looks a register name up; every valid index lies in 0..=31.
pub fn str_to_reg(s: &str) -> (r: Option<Reg>)
    ensures
        r == spec_str_to_reg(s@),
        r matches Some(v) ==> v < 32,
{
    if str_eq(s, "0") || str_eq(s, "zero") {
        Some(0)
    } else if str_eq(s, "1") || str_eq(s, "ra") {
        Some(1)
    } else if str_eq(s, "2") || str_eq(s, "sp") {
        Some(2)
    } else if str_eq(s, "3") || str_eq(s, "gp") {
        Some(3)
    } else if str_eq(s, "4") || str_eq(s, "tp") {
        Some(4)
    } else if str_eq(s, "5") || str_eq(s, "t0") {
        Some(5)
    } else if str_eq(s, "6") || str_eq(s, "t1") {
        Some(6)
    } else if str_eq(s, "7") || str_eq(s, "t2") {
        Some(7)
    } else if str_eq(s, "8") || str_eq(s, "s0") || str_eq(s, "fp") {
        Some(8)
    } else if str_eq(s, "9") || str_eq(s, "s1") {
        Some(9)
    } else if str_eq(s, "10") || str_eq(s, "a0") {
        Some(10)
    } else if str_eq(s, "11") || str_eq(s, "a1") {
        Some(11)
    } else if str_eq(s, "12") || str_eq(s, "a2") {
        Some(12)
    } else if str_eq(s, "13") || str_eq(s, "a3") {
        Some(13)
    } else if str_eq(s, "14") || str_eq(s, "a4") {
        Some(14)
    } else if str_eq(s, "15") || str_eq(s, "a5") {
        Some(15)
    } else if str_eq(s, "16") || str_eq(s, "a6") {
        Some(16)
    } else if str_eq(s, "17") || str_eq(s, "a7") {
        Some(17)
    } else if str_eq(s, "18") || str_eq(s, "s2") {
        Some(18)
    } else if str_eq(s, "19") || str_eq(s, "s3") {
        Some(19)
    } else if str_eq(s, "20") || str_eq(s, "s4") {
        Some(20)
    } else if str_eq(s, "21") || str_eq(s, "s5") {
        Some(21)
    } else if str_eq(s, "22") || str_eq(s, "s6") {
        Some(22)
    } else if str_eq(s, "23") || str_eq(s, "s7") {
        Some(23)
    } else if str_eq(s, "24") || str_eq(s, "s8") {
        Some(24)
    } else if str_eq(s, "25") || str_eq(s, "s9") {
        Some(25)
    } else if str_eq(s, "26") || str_eq(s, "s10") {
        Some(26)
    } else if str_eq(s, "27") || str_eq(s, "s11") {
        Some(27)
    } else if str_eq(s, "28") || str_eq(s, "t3") {
        Some(28)
    } else if str_eq(s, "29") || str_eq(s, "t4") {
        Some(29)
    } else if str_eq(s, "30") || str_eq(s, "t5") {
        Some(30)
    } else if str_eq(s, "31") || str_eq(s, "t6") {
        Some(31)
    } else {
        None
    }
}

/// An optional leading label definition at `i`: whitespace, a nonempty run
/// of label characters, ':', trailing whitespace. Where no such definition
/// stands, the position stays at `i`.
pub open spec fn spec_opt_label(s: Seq<char>, i: int) -> (Option<Seq<char>>, int) {
    let a = skip_multispace(s, i);
    let e = label_end(s, a);
    if e > a && e < s.len() && s[e] == ':' {
        (Some(s.subrange(a, e)), skip_multispace(s, e + 1))
    } else {
        (None, i)
    }
}

/// Scans an optional label definition at `i`.
pub fn parse_label(s: &str, i: usize) -> (r: (Option<String>, usize))
    requires
        i <= s@.len(),
    ensures
        opt_view(r.0) == spec_opt_label(s@, i as int).0,
        r.1 as int == spec_opt_label(s@, i as int).1,
        i <= r.1 <= s@.len(),
{
    let n = s.unicode_len();
    let a = skip_multispace_x(s, i);
    let e = label_end_x(s, a);
    if e > a && e < n && s.get_char(e) == ':' {
        let name = s.substring_char(a, e).to_owned();
        let p = skip_multispace_x(s, e + 1);
        (Some(name), p)
    } else {
        (None, i)
    }
}

/// A register token at `i`: optional spaces, a nonempty alphanumeric run,
/// optional spaces. Returns the token and the position past the trailing
/// spaces.
pub open spec fn spec_reg_token(s: Seq<char>, i: int) -> Option<(Seq<char>, int)> {
    let a = skip_space(s, i);
    let e = alnum_end(s, a);
    if e > a {
        Some((s.subrange(a, e), skip_space(s, e)))
    } else {
        None
    }
}

/// Scans a register token at `i`.
pub fn reg<'a>(s: &'a str, i: usize) -> (r: Option<(&'a str, usize)>)
    requires
        i <= s@.len(),
    ensures
        match r {
            Some((t, p)) => spec_reg_token(s@, i as int) matches Some(x) && t@ == x.0 && p as int
                == x.1 && i <= p <= s@.len(),
            None => spec_reg_token(s@, i as int) is None,
        },
{
    let a = skip_space_x(s, i);
    let e = alnum_end_x(s, a);
    if e > a {
        let t = s.substring_char(a, e);
        let p = skip_space_x(s, e);
        Some((t, p))
    } else {
        None
    }
}

/// A parenthesised register token at `i`: optional spaces, '(', optional
/// spaces, a nonempty alphanumeric run, optional spaces, ')'. Returns the
/// token and the position just past ')'.
pub open spec fn spec_inside_par(s: Seq<char>, i: int) -> Option<(Seq<char>, int)> {
    let a = skip_space(s, i);
    if a < s.len() && s[a] == '(' {
        let b = skip_space(s, a + 1);
        let e = alnum_end(s, b);
        if e > b {
            let c = skip_space(s, e);
            if c < s.len() && s[c] == ')' {
                Some((s.subrange(b, e), c + 1))
            } else {
                None
            }
        } else {
            None
        }
    } else {
        None
    }
}

/// Scans a parenthesised register token at `i`.
pub fn inside_par<'a>(s: &'a str, i: usize) -> (r: Option<(&'a str, usize)>)
    requires
        i <= s@.len(),
    ensures
        match r {
            Some((t, p)) => spec_inside_par(s@, i as int) matches Some(x) && t@ == x.0 && p as int
                == x.1 && i <= p <= s@.len(),
            None => spec_inside_par(s@, i as int) is None,
        },
{
    let n = s.unicode_len();
    let a = skip_space_x(s, i);
    if a < n && s.get_char(a) == '(' {
        let b = skip_space_x(s, a + 1);
        let e = alnum_end_x(s, b);
        if e > b {
            let c = skip_space_x(s, e);
            if c < n && s.get_char(c) == ')' {
                let t = s.substring_char(b, e);
                Some((t, c + 1))
            } else {
                None
            }
        } else {
            None
        }
    } else {
        None
    }
}

/// The mnemonic token at `i`: optional spaces, then a nonempty alphanumeric
/// run that must be followed by at least one space or tab on the same line.
/// Returns the token and the position of that following space.
pub open spec fn spec_mne_token(s: Seq<char>, i: int) -> Option<(Seq<char>, int)> {
    let a = skip_space(s, i);
    let e = alnum_end(s, a);
    if e > a && e < s.len() && is_space_char(s[e]) {
        Some((s.subrange(a, e), e))
    } else {
        None
    }
}

/// Scans the mnemonic token at `i`.
pub fn mne_token<'a>(s: &'a str, i: usize) -> (r: Option<(&'a str, usize)>)
    requires
        i <= s@.len(),
    ensures
        match r {
            Some((t, p)) => spec_mne_token(s@, i as int) matches Some(x) && t@ == x.0 && p as int
                == x.1 && i < p < s@.len() && t@.len() > 0,
            None => spec_mne_token(s@, i as int) is None,
        },
{
    let n = s.unicode_len();
    let a = skip_space_x(s, i);
    let e = alnum_end_x(s, a);
    if e > a && e < n {
        let c = s.get_char(e);
        if c == ' ' || c == '\t' {
            let t = s.substring_char(a, e);
            return Some((t, e));
        }
    }
    None
}

} // verus!

verus! {

/// Why an operand shape yields no record.
#[derive(Debug, PartialEq, Eq, Structural, Clone, Copy)]
pub enum ShapeFail {
    /// The shape's tokens do not stand here.
    NoMatch,
    /// A numeric literal stands here but exceeds a 32-bit word.
    BadNum,
    /// A register operand names no architectural register.
    BadReg,
}

/// Memory-access operands: a register, a comma, an immediate, a register in
/// parentheses, trailing whitespace. Yields (first register, immediate,
/// parenthesised register, end position).
pub open spec fn spec_shape_mem(s: Seq<char>, p: int) -> Result<(u32, u32, u32, int), ShapeFail> {
    match spec_reg_token(s, p) {
        None => Err(ShapeFail::NoMatch),
        Some((ta, i1)) => if i1 < s.len() && s[i1] == ',' {
            let i2 = skip_space(s, i1 + 1);
            if !spec_num_matches(s, i2) {
                Err(ShapeFail::NoMatch)
            } else if spec_num_value(s, i2) > u32::MAX {
                Err(ShapeFail::BadNum)
            } else {
                match spec_inside_par(s, spec_num_end(s, i2)) {
                    None => Err(ShapeFail::NoMatch),
                    Some((tb, i4)) => match (spec_str_to_reg(ta), spec_str_to_reg(tb)) {
                        (Some(ra), Some(rb)) => Ok(
                            (ra, spec_num_value(s, i2) as u32, rb, skip_multispace(s, i4)),
                        ),
                        _ => Err(ShapeFail::BadReg),
                    },
                }
            }
        } else {
            Err(ShapeFail::NoMatch)
        },
    }
}

fn shape_mem(s: &str, p: usize) -> (r: Result<(u32, u32, u32, usize), ShapeFail>)
    requires
        p <= s@.len(),
    ensures
        match r {
            Ok((ra, imm, rb, e)) => spec_shape_mem(s@, p as int) matches Ok(x) && x.0 == ra && x.1
                == imm && x.2 == rb && x.3 == e as int && p <= e <= s@.len() && ra < 32 && rb < 32,
            Err(f) => spec_shape_mem(s@, p as int) matches Err(f2) && f == f2,
        },
{
    let n = s.unicode_len();
    match reg(s, p) {
        None => Err(ShapeFail::NoMatch),
        Some((ta, i1)) => {
            if i1 < n && s.get_char(i1) == ',' {
                let i2 = skip_space_x(s, i1 + 1);
                match scan_number(s, i2) {
                    NumScan::NoMatch => Err(ShapeFail::NoMatch),
                    NumScan::Overflow => Err(ShapeFail::BadNum),
                    NumScan::Value(v, i3) => match inside_par(s, i3) {
                        None => Err(ShapeFail::NoMatch),
                        Some((tb, i4)) => {
                            let ora = str_to_reg(ta);
                            let orb = str_to_reg(tb);
                            if ora.is_some() && orb.is_some() {
                                let e = skip_multispace_x(s, i4);
                                Ok((ora.unwrap(), v, orb.unwrap(), e))
                            } else {
                                Err(ShapeFail::BadReg)
                            }
                        },
                    },
                }
            } else {
                Err(ShapeFail::NoMatch)
            }
        },
    }
}

/// Three-operand form with an immediate: register, comma, register, comma,
/// immediate, trailing whitespace. Yields (first register, second register,
/// immediate, end position).
pub open spec fn spec_shape_rri(s: Seq<char>, p: int) -> Result<(u32, u32, u32, int), ShapeFail> {
    match spec_reg_token(s, p) {
        None => Err(ShapeFail::NoMatch),
        Some((ta, i1)) => if i1 < s.len() && s[i1] == ',' {
            match spec_reg_token(s, i1 + 1) {
                None => Err(ShapeFail::NoMatch),
                Some((tb, i2)) => if i2 < s.len() && s[i2] == ',' {
                    let i3 = skip_space(s, i2 + 1);
                    if !spec_num_matches(s, i3) {
                        Err(ShapeFail::NoMatch)
                    } else if spec_num_value(s, i3) > u32::MAX {
                        Err(ShapeFail::BadNum)
                    } else {
                        let end = skip_multispace(s, spec_num_end(s, i3));
                        match (spec_str_to_reg(ta), spec_str_to_reg(tb)) {
                            (Some(ra), Some(rb)) => Ok(
                                (ra, rb, spec_num_value(s, i3) as u32, end),
                            ),
                            _ => Err(ShapeFail::BadReg),
                        }
                    }
                } else {
                    Err(ShapeFail::NoMatch)
                },
            }
        } else {
            Err(ShapeFail::NoMatch)
        },
    }
}

fn shape_rri(s: &str, p: usize) -> (r: Result<(u32, u32, u32, usize), ShapeFail>)
    requires
        p <= s@.len(),
    ensures
        match r {
            Ok((ra, rb, imm, e)) => spec_shape_rri(s@, p as int) matches Ok(x) && x.0 == ra && x.1
                == rb && x.2 == imm && x.3 == e as int && p <= e <= s@.len() && ra < 32 && rb < 32,
            Err(f) => spec_shape_rri(s@, p as int) matches Err(f2) && f == f2,
        },
{
    let n = s.unicode_len();
    match reg(s, p) {
        None => Err(ShapeFail::NoMatch),
        Some((ta, i1)) => {
            if i1 < n && s.get_char(i1) == ',' {
                match reg(s, i1 + 1) {
                    None => Err(ShapeFail::NoMatch),
                    Some((tb, i2)) => {
                        if i2 < n && s.get_char(i2) == ',' {
                            let i3 = skip_space_x(s, i2 + 1);
                            match scan_number(s, i3) {
                                NumScan::NoMatch => Err(ShapeFail::NoMatch),
                                NumScan::Overflow => Err(ShapeFail::BadNum),
                                NumScan::Value(v, i4) => {
                                    let ora = str_to_reg(ta);
                                    let orb = str_to_reg(tb);
                                    if ora.is_some() && orb.is_some() {
                                        let e = skip_multispace_x(s, i4);
                                        Ok((ora.unwrap(), orb.unwrap(), v, e))
                                    } else {
                                        Err(ShapeFail::BadReg)
                                    }
                                },
                            }
                        } else {
                            Err(ShapeFail::NoMatch)
                        }
                    },
                }
            } else {
                Err(ShapeFail::NoMatch)
            }
        },
    }
}

/// Three-operand form with a label reference: register, comma, register,
/// comma, label token, trailing whitespace. Yields (first register, second
/// register, label name, end position).
pub open spec fn spec_shape_rrl(s: Seq<char>, p: int) -> Result<
    (u32, u32, Seq<char>, int),
    ShapeFail,
> {
    match spec_reg_token(s, p) {
        None => Err(ShapeFail::NoMatch),
        Some((ta, i1)) => if i1 < s.len() && s[i1] == ',' {
            match spec_reg_token(s, i1 + 1) {
                None => Err(ShapeFail::NoMatch),
                Some((tb, i2)) => if i2 < s.len() && s[i2] == ',' {
                    let i3 = skip_space(s, i2 + 1);
                    let e3 = label_end(s, i3);
                    if e3 > i3 {
                        let end = skip_multispace(s, e3);
                        match (spec_str_to_reg(ta), spec_str_to_reg(tb)) {
                            (Some(ra), Some(rb)) => Ok((ra, rb, s.subrange(i3, e3), end)),
                            _ => Err(ShapeFail::BadReg),
                        }
                    } else {
                        Err(ShapeFail::NoMatch)
                    }
                } else {
                    Err(ShapeFail::NoMatch)
                },
            }
        } else {
            Err(ShapeFail::NoMatch)
        },
    }
}

fn shape_rrl(s: &str, p: usize) -> (r: Result<(u32, u32, String, usize), ShapeFail>)
    requires
        p <= s@.len(),
    ensures
        match r {
            Ok((ra, rb, lbl, e)) => spec_shape_rrl(s@, p as int) matches Ok(x) && x.0 == ra && x.1
                == rb && lbl@ == x.2 && x.3 == e as int && p <= e <= s@.len() && ra < 32 && rb
                < 32,
            Err(f) => spec_shape_rrl(s@, p as int) matches Err(f2) && f == f2,
        },
{
    let n = s.unicode_len();
    match reg(s, p) {
        None => Err(ShapeFail::NoMatch),
        Some((ta, i1)) => {
            if i1 < n && s.get_char(i1) == ',' {
                match reg(s, i1 + 1) {
                    None => Err(ShapeFail::NoMatch),
                    Some((tb, i2)) => {
                        if i2 < n && s.get_char(i2) == ',' {
                            let i3 = skip_space_x(s, i2 + 1);
                            let e3 = label_end_x(s, i3);
                            if e3 > i3 {
                                let ora = str_to_reg(ta);
                                let orb = str_to_reg(tb);
                                if ora.is_some() && orb.is_some() {
                                    let lbl = s.substring_char(i3, e3).to_owned();
                                    let e = skip_multispace_x(s, e3);
                                    Ok((ora.unwrap(), orb.unwrap(), lbl, e))
                                } else {
                                    Err(ShapeFail::BadReg)
                                }
                            } else {
                                Err(ShapeFail::NoMatch)
                            }
                        } else {
                            Err(ShapeFail::NoMatch)
                        }
                    },
                }
            } else {
                Err(ShapeFail::NoMatch)
            }
        },
    }
}

/// Three-register form: register, comma, register, comma, register, trailing
/// whitespace. Yields the three registers and the end position.
pub open spec fn spec_shape_rrr(s: Seq<char>, p: int) -> Result<(u32, u32, u32, int), ShapeFail> {
    match spec_reg_token(s, p) {
        None => Err(ShapeFail::NoMatch),
        Some((ta, i1)) => if i1 < s.len() && s[i1] == ',' {
            match spec_reg_token(s, i1 + 1) {
                None => Err(ShapeFail::NoMatch),
                Some((tb, i2)) => if i2 < s.len() && s[i2] == ',' {
                    match spec_reg_token(s, i2 + 1) {
                        None => Err(ShapeFail::NoMatch),
                        Some((tc, i3)) => {
                            let end = skip_multispace(s, i3);
                            match (spec_str_to_reg(ta), spec_str_to_reg(tb), spec_str_to_reg(tc)) {
                                (Some(ra), Some(rb), Some(rc)) => Ok((ra, rb, rc, end)),
                                _ => Err(ShapeFail::BadReg),
                            }
                        },
                    }
                } else {
                    Err(ShapeFail::NoMatch)
                },
            }
        } else {
            Err(ShapeFail::NoMatch)
        },
    }
}

fn shape_rrr(s: &str, p: usize) -> (r: Result<(u32, u32, u32, usize), ShapeFail>)
    requires
        p <= s@.len(),
    ensures
        match r {
            Ok((ra, rb, rc, e)) => spec_shape_rrr(s@, p as int) matches Ok(x) && x.0 == ra && x.1
                == rb && x.2 == rc && x.3 == e as int && p <= e <= s@.len() && ra < 32 && rb < 32
                && rc < 32,
            Err(f) => spec_shape_rrr(s@, p as int) matches Err(f2) && f == f2,
        },
{
    let n = s.unicode_len();
    match reg(s, p) {
        None => Err(ShapeFail::NoMatch),
        Some((ta, i1)) => {
            if i1 < n && s.get_char(i1) == ',' {
                match reg(s, i1 + 1) {
                    None => Err(ShapeFail::NoMatch),
                    Some((tb, i2)) => {
                        if i2 < n && s.get_char(i2) == ',' {
                            match reg(s, i2 + 1) {
                                None => Err(ShapeFail::NoMatch),
                                Some((tc, i3)) => {
                                    let ora = str_to_reg(ta);
                                    let orb = str_to_reg(tb);
                                    let orc = str_to_reg(tc);
                                    if ora.is_some() && orb.is_some() && orc.is_some() {
                                        let e = skip_multispace_x(s, i3);
                                        Ok((ora.unwrap(), orb.unwrap(), orc.unwrap(), e))
                                    } else {
                                        Err(ShapeFail::BadReg)
                                    }
                                },
                            }
                        } else {
                            Err(ShapeFail::NoMatch)
                        }
                    },
                }
            } else {
                Err(ShapeFail::NoMatch)
            }
        },
    }
}

/// Register-and-immediate form without a comma: register, immediate,
/// trailing whitespace. Yields the register, the immediate and the end
/// position.
pub open spec fn spec_shape_ri(s: Seq<char>, p: int) -> Result<(u32, u32, int), ShapeFail> {
    match spec_reg_token(s, p) {
        None => Err(ShapeFail::NoMatch),
        Some((ta, i1)) => if !spec_num_matches(s, i1) {
            Err(ShapeFail::NoMatch)
        } else if spec_num_value(s, i1) > u32::MAX {
            Err(ShapeFail::BadNum)
        } else {
            let end = skip_multispace(s, spec_num_end(s, i1));
            match spec_str_to_reg(ta) {
                Some(ra) => Ok((ra, spec_num_value(s, i1) as u32, end)),
                None => Err(ShapeFail::BadReg),
            }
        },
    }
}

fn shape_ri(s: &str, p: usize) -> (r: Result<(u32, u32, usize), ShapeFail>)
    requires
        p <= s@.len(),
    ensures
        match r {
            Ok((ra, imm, e)) => spec_shape_ri(s@, p as int) matches Ok(x) && x.0 == ra && x.1
                == imm && x.2 == e as int && p <= e <= s@.len() && ra < 32,
            Err(f) => spec_shape_ri(s@, p as int) matches Err(f2) && f == f2,
        },
{
    match reg(s, p) {
        None => Err(ShapeFail::NoMatch),
        Some((ta, i1)) => match scan_number(s, i1) {
            NumScan::NoMatch => Err(ShapeFail::NoMatch),
            NumScan::Overflow => Err(ShapeFail::BadNum),
            NumScan::Value(v, i2) => match str_to_reg(ta) {
                Some(ra) => {
                    let e = skip_multispace_x(s, i2);
                    Ok((ra, v, e))
                },
                None => Err(ShapeFail::BadReg),
            },
        },
    }
}

/// Register-and-label form without a comma: register, label token, trailing
/// whitespace. Yields the register, the label name and the end position.
pub open spec fn spec_shape_rl(s: Seq<char>, p: int) -> Result<(u32, Seq<char>, int), ShapeFail> {
    match spec_reg_token(s, p) {
        None => Err(ShapeFail::NoMatch),
        Some((ta, i1)) => {
            let e1 = label_end(s, i1);
            if e1 > i1 {
                let end = skip_multispace(s, e1);
                match spec_str_to_reg(ta) {
                    Some(ra) => Ok((ra, s.subrange(i1, e1), end)),
                    None => Err(ShapeFail::BadReg),
                }
            } else {
                Err(ShapeFail::NoMatch)
            }
        },
    }
}

fn shape_rl(s: &str, p: usize) -> (r: Result<(u32, String, usize), ShapeFail>)
    requires
        p <= s@.len(),
    ensures
        match r {
            Ok((ra, lbl, e)) => spec_shape_rl(s@, p as int) matches Ok(x) && x.0 == ra && lbl@
                == x.1 && x.2 == e as int && p <= e <= s@.len() && ra < 32,
            Err(f) => spec_shape_rl(s@, p as int) matches Err(f2) && f == f2,
        },
{
    match reg(s, p) {
        None => Err(ShapeFail::NoMatch),
        Some((ta, i1)) => {
            let e1 = label_end_x(s, i1);
            if e1 > i1 {
                match str_to_reg(ta) {
                    Some(ra) => {
                        let lbl = s.substring_char(i1, e1).to_owned();
                        let e = skip_multispace_x(s, e1);
                        Ok((ra, lbl, e))
                    },
                    None => Err(ShapeFail::BadReg),
                }
            } else {
                Err(ShapeFail::NoMatch)
            }
        },
    }
}

} // verus!

verus! {

/// Whether a token names a load mnemonic, ignoring case.
pub open spec fn is_load_mne(s: Seq<char>) -> bool {
    eq_ignore_case(s, "lb"@) || eq_ignore_case(s, "lh"@) || eq_ignore_case(s, "lw"@)
        || eq_ignore_case(s, "lbu"@) || eq_ignore_case(s, "lhu"@)
}

fn load_mne(t: &str) -> (r: bool)
    ensures
        r == is_load_mne(t@),
{
    str_eq_ic(t, "lb") || str_eq_ic(t, "lh") || str_eq_ic(t, "lw") || str_eq_ic(t, "lbu")
        || str_eq_ic(t, "lhu")
}

/// Whether a token names a store mnemonic, ignoring case.
pub open spec fn is_store_mne(s: Seq<char>) -> bool {
    eq_ignore_case(s, "sb"@) || eq_ignore_case(s, "sh"@) || eq_ignore_case(s, "sw"@)
}

fn store_mne(t: &str) -> (r: bool)
    ensures
        r == is_store_mne(t@),
{
    str_eq_ic(t, "sb") || str_eq_ic(t, "sh") || str_eq_ic(t, "sw")
}

/// Whether a token names a branch mnemonic, ignoring case.
pub open spec fn is_branch_mne(s: Seq<char>) -> bool {
    eq_ignore_case(s, "beq"@) || eq_ignore_case(s, "bne"@) || eq_ignore_case(s, "blt"@)
        || eq_ignore_case(s, "bge"@) || eq_ignore_case(s, "bltu"@) || eq_ignore_case(s, "bgeu"@)
}

pub fn branch_mne(t: &str) -> (r: bool)
    ensures
        r == is_branch_mne(t@),
{
    str_eq_ic(t, "beq") || str_eq_ic(t, "bne") || str_eq_ic(t, "blt") || str_eq_ic(t, "bge")
        || str_eq_ic(t, "bltu") || str_eq_ic(t, "bgeu")
}

/// Whether a token names a register-immediate arithmetic mnemonic, ignoring
/// case.
pub open spec fn is_imm_mne(s: Seq<char>) -> bool {
    eq_ignore_case(s, "addi"@) || eq_ignore_case(s, "xori"@) || eq_ignore_case(s, "ori"@)
        || eq_ignore_case(s, "andi"@) || eq_ignore_case(s, "slli"@) || eq_ignore_case(s, "srli"@)
        || eq_ignore_case(s, "srai"@) || eq_ignore_case(s, "slti"@) || eq_ignore_case(s, "sltiu"@)
}

fn imm_mne(t: &str) -> (r: bool)
    ensures
        r == is_imm_mne(t@),
{
    str_eq_ic(t, "addi") || str_eq_ic(t, "xori") || str_eq_ic(t, "ori") || str_eq_ic(t, "andi")
        || str_eq_ic(t, "slli") || str_eq_ic(t, "srli") || str_eq_ic(t, "srai") || str_eq_ic(
        t,
        "slti",
    ) || str_eq_ic(t, "sltiu")
}

/// Whether a token names a register-register arithmetic mnemonic, ignoring
/// case.
pub open spec fn is_reg_mne(s: Seq<char>) -> bool {
    eq_ignore_case(s, "add"@) || eq_ignore_case(s, "sub"@) || eq_ignore_case(s, "xor"@)
        || eq_ignore_case(s, "or"@) || eq_ignore_case(s, "and"@) || eq_ignore_case(s, "sll"@)
        || eq_ignore_case(s, "srl"@) || eq_ignore_case(s, "sra"@) || eq_ignore_case(s, "slt"@)
        || eq_ignore_case(s, "sltu"@)
}

fn reg_mne(t: &str) -> (r: bool)
    ensures
        r == is_reg_mne(t@),
{
    str_eq_ic(t, "add") || str_eq_ic(t, "sub") || str_eq_ic(t, "xor") || str_eq_ic(t, "or")
        || str_eq_ic(t, "and") || str_eq_ic(t, "sll") || str_eq_ic(t, "srl") || str_eq_ic(
        t,
        "sra",
    ) || str_eq_ic(t, "slt") || str_eq_ic(t, "sltu")
}

/// Whether a token names an upper-immediate or jump mnemonic, ignoring case.
pub open spec fn is_uj_mne(s: Seq<char>) -> bool {
    eq_ignore_case(s, "lui"@) || eq_ignore_case(s, "auipc"@) || eq_ignore_case(s, "jal"@)
}

fn uj_mne(t: &str) -> (r: bool)
    ensures
        r == is_uj_mne(t@),
{
    str_eq_ic(t, "lui") || str_eq_ic(t, "auipc") || str_eq_ic(t, "jal")
}

/// The spec-level outcome of one grammar rule at a position.
pub enum ParseOut {
    NoMatch,
    BadNum,
    BadReg,
    Matched(TextV, int),
}

/// The executable outcome of one grammar rule at a position.
#[derive(Debug, PartialEq)]
pub enum RuleOut {
    NoMatch,
    BadNum,
    BadReg,
    Matched(Text, usize),
}

/// How an executable rule outcome realises its spec-level outcome: the same
/// variant, the viewed record, and an end position past the start.
pub open spec fn rule_obeys(r: RuleOut, sp: ParseOut, len: int, i: int) -> bool {
    match r {
        RuleOut::NoMatch => sp is NoMatch,
        RuleOut::BadNum => sp is BadNum,
        RuleOut::BadReg => sp is BadReg,
        RuleOut::Matched(t, e) => sp matches ParseOut::Matched(tv, ev) && t@ == tv && e as int
            == ev && i < e <= len,
    }
}

/// Turns a shape failure into a rule outcome.
pub open spec fn spec_fail_out(f: ShapeFail) -> ParseOut {
    match f {
        ShapeFail::NoMatch => ParseOut::NoMatch,
        ShapeFail::BadNum => ParseOut::BadNum,
        ShapeFail::BadReg => ParseOut::BadReg,
    }
}

fn fail_out(f: ShapeFail) -> (r: RuleOut)
    ensures
        spec_fail_out(f) is NoMatch <==> r is NoMatch,
        spec_fail_out(f) is BadNum <==> r is BadNum,
        spec_fail_out(f) is BadReg <==> r is BadReg,
{
    match f {
        ShapeFail::NoMatch => RuleOut::NoMatch,
        ShapeFail::BadNum => RuleOut::BadNum,
        ShapeFail::BadReg => RuleOut::BadReg,
    }
}

/// A load line at `i`: optional label, a load mnemonic, then `rd, imm(rs1)`.
pub open spec fn spec_parse_load(s: Seq<char>, i: int) -> ParseOut {
    let (lab, i0) = spec_opt_label(s, i);
    match spec_mne_token(s, i0) {
        None => ParseOut::NoMatch,
        Some((mne, e)) => if is_load_mne(mne) {
            match spec_shape_mem(s, e) {
                Err(f) => spec_fail_out(f),
                Ok((rd, imm, rs1, end)) => ParseOut::Matched(
                    TextV {
                        instruction: InstructionDataV {
                            mne,
                            rd: Some(rd),
                            rs1: Some(rs1),
                            rs2: None,
                            imm: Some(imm),
                        },
                        label: lab,
                        label_dst: None,
                    },
                    end,
                ),
            }
        } else {
            ParseOut::NoMatch
        },
    }
}

fn load_at(s: &str, i: usize) -> (r: RuleOut)
    requires
        i <= s@.len(),
    ensures
        rule_obeys(r, spec_parse_load(s@, i as int), s@.len() as int, i as int),
{
    let (lab, i0) = parse_label(s, i);
    match mne_token(s, i0) {
        None => RuleOut::NoMatch,
        Some((mnetok, e)) => {
            if load_mne(mnetok) {
                match shape_mem(s, e) {
                    Err(f) => fail_out(f),
                    Ok((rd, imm, rs1, end)) => RuleOut::Matched(
                        Text {
                            instruction: InstructionData {
                                mne: mnetok.to_owned(),
                                rd: Some(rd),
                                rs1: Some(rs1),
                                rs2: None,
                                imm: Some(imm),
                            },
                            label: lab,
                            label_dst: None,
                        },
                        end,
                    ),
                }
            } else {
                RuleOut::NoMatch
            }
        },
    }
}

/// A store line at `i`: optional label, a store mnemonic, then
/// `rs2, imm(rs1)`.
pub open spec fn spec_parse_store(s: Seq<char>, i: int) -> ParseOut {
    let (lab, i0) = spec_opt_label(s, i);
    match spec_mne_token(s, i0) {
        None => ParseOut::NoMatch,
        Some((mne, e)) => if is_store_mne(mne) {
            match spec_shape_mem(s, e) {
                Err(f) => spec_fail_out(f),
                Ok((rs2, imm, rs1, end)) => ParseOut::Matched(
                    TextV {
                        instruction: InstructionDataV {
                            mne,
                            rd: None,
                            rs1: Some(rs1),
                            rs2: Some(rs2),
                            imm: Some(imm),
                        },
                        label: lab,
                        label_dst: None,
                    },
                    end,
                ),
            }
        } else {
            ParseOut::NoMatch
        },
    }
}

fn store_at(s: &str, i: usize) -> (r: RuleOut)
    requires
        i <= s@.len(),
    ensures
        rule_obeys(r, spec_parse_store(s@, i as int), s@.len() as int, i as int),
{
    let (lab, i0) = parse_label(s, i);
    match mne_token(s, i0) {
        None => RuleOut::NoMatch,
        Some((mnetok, e)) => {
            if store_mne(mnetok) {
                match shape_mem(s, e) {
                    Err(f) => fail_out(f),
                    Ok((rs2, imm, rs1, end)) => RuleOut::Matched(
                        Text {
                            instruction: InstructionData {
                                mne: mnetok.to_owned(),
                                rd: None,
                                rs1: Some(rs1),
                                rs2: Some(rs2),
                                imm: Some(imm),
                            },
                            label: lab,
                            label_dst: None,
                        },
                        end,
                    ),
                }
            } else {
                RuleOut::NoMatch
            }
        },
    }
}

/// A branch line with a numeric immediate at `i`: optional label, a branch
/// mnemonic, then `rs1, rs2, imm`.
pub open spec fn spec_parse_branch(s: Seq<char>, i: int) -> ParseOut {
    let (lab, i0) = spec_opt_label(s, i);
    match spec_mne_token(s, i0) {
        None => ParseOut::NoMatch,
        Some((mne, e)) => if is_branch_mne(mne) {
            match spec_shape_rri(s, e) {
                Err(f) => spec_fail_out(f),
                Ok((rs1, rs2, imm, end)) => ParseOut::Matched(
                    TextV {
                        instruction: InstructionDataV {
                            mne,
                            rd: None,
                            rs1: Some(rs1),
                            rs2: Some(rs2),
                            imm: Some(imm),
                        },
                        label: lab,
                        label_dst: None,
                    },
                    end,
                ),
            }
        } else {
            ParseOut::NoMatch
        },
    }
}

fn branch_at(s: &str, i: usize) -> (r: RuleOut)
    requires
        i <= s@.len(),
    ensures
        rule_obeys(r, spec_parse_branch(s@, i as int), s@.len() as int, i as int),
{
    let (lab, i0) = parse_label(s, i);
    match mne_token(s, i0) {
        None => RuleOut::NoMatch,
        Some((mnetok, e)) => {
            if branch_mne(mnetok) {
                match shape_rri(s, e) {
                    Err(f) => fail_out(f),
                    Ok((rs1, rs2, imm, end)) => RuleOut::Matched(
                        Text {
                            instruction: InstructionData {
                                mne: mnetok.to_owned(),
                                rd: None,
                                rs1: Some(rs1),
                                rs2: Some(rs2),
                                imm: Some(imm),
                            },
                            label: lab,
                            label_dst: None,
                        },
                        end,
                    ),
                }
            } else {
                RuleOut::NoMatch
            }
        },
    }
}

/// A branch line with a label reference at `i`: optional label, a branch
/// mnemonic, then `rs1, rs2, label`.
pub open spec fn spec_parse_branch_pseudo(s: Seq<char>, i: int) -> ParseOut {
    let (lab, i0) = spec_opt_label(s, i);
    match spec_mne_token(s, i0) {
        None => ParseOut::NoMatch,
        Some((mne, e)) => if is_branch_mne(mne) {
            match spec_shape_rrl(s, e) {
                Err(f) => spec_fail_out(f),
                Ok((rs1, rs2, dst, end)) => ParseOut::Matched(
                    TextV {
                        instruction: InstructionDataV {
                            mne,
                            rd: None,
                            rs1: Some(rs1),
                            rs2: Some(rs2),
                            imm: None,
                        },
                        label: lab,
                        label_dst: Some(dst),
                    },
                    end,
                ),
            }
        } else {
            ParseOut::NoMatch
        },
    }
}

fn branch_pseudo_at(s: &str, i: usize) -> (r: RuleOut)
    requires
        i <= s@.len(),
    ensures
        rule_obeys(r, spec_parse_branch_pseudo(s@, i as int), s@.len() as int, i as int),
{
    let (lab, i0) = parse_label(s, i);
    match mne_token(s, i0) {
        None => RuleOut::NoMatch,
        Some((mnetok, e)) => {
            if branch_mne(mnetok) {
                match shape_rrl(s, e) {
                    Err(f) => fail_out(f),
                    Ok((rs1, rs2, dst, end)) => RuleOut::Matched(
                        Text {
                            instruction: InstructionData {
                                mne: mnetok.to_owned(),
                                rd: None,
                                rs1: Some(rs1),
                                rs2: Some(rs2),
                                imm: None,
                            },
                            label: lab,
                            label_dst: Some(dst),
                        },
                        end,
                    ),
                }
            } else {
                RuleOut::NoMatch
            }
        },
    }
}

/// A register-immediate line at `i`: optional label, an immediate-arithmetic
/// mnemonic, then `rd, rs1, imm`.
pub open spec fn spec_parse_imm_instr(s: Seq<char>, i: int) -> ParseOut {
    let (lab, i0) = spec_opt_label(s, i);
    match spec_mne_token(s, i0) {
        None => ParseOut::NoMatch,
        Some((mne, e)) => if is_imm_mne(mne) {
            match spec_shape_rri(s, e) {
                Err(f) => spec_fail_out(f),
                Ok((rd, rs1, imm, end)) => ParseOut::Matched(
                    TextV {
                        instruction: InstructionDataV {
                            mne,
                            rd: Some(rd),
                            rs1: Some(rs1),
                            rs2: None,
                            imm: Some(imm),
                        },
                        label: lab,
                        label_dst: None,
                    },
                    end,
                ),
            }
        } else {
            ParseOut::NoMatch
        },
    }
}

fn imm_instr_at(s: &str, i: usize) -> (r: RuleOut)
    requires
        i <= s@.len(),
    ensures
        rule_obeys(r, spec_parse_imm_instr(s@, i as int), s@.len() as int, i as int),
{
    let (lab, i0) = parse_label(s, i);
    match mne_token(s, i0) {
        None => RuleOut::NoMatch,
        Some((mnetok, e)) => {
            if imm_mne(mnetok) {
                match shape_rri(s, e) {
                    Err(f) => fail_out(f),
                    Ok((rd, rs1, imm, end)) => RuleOut::Matched(
                        Text {
                            instruction: InstructionData {
                                mne: mnetok.to_owned(),
                                rd: Some(rd),
                                rs1: Some(rs1),
                                rs2: None,
                                imm: Some(imm),
                            },
                            label: lab,
                            label_dst: None,
                        },
                        end,
                    ),
                }
            } else {
                RuleOut::NoMatch
            }
        },
    }
}

/// A register-register line at `i`: optional label, a register-arithmetic
/// mnemonic, then `rd, rs1, rs2`.
pub open spec fn spec_parse_reg_instr(s: Seq<char>, i: int) -> ParseOut {
    let (lab, i0) = spec_opt_label(s, i);
    match spec_mne_token(s, i0) {
        None => ParseOut::NoMatch,
        Some((mne, e)) => if is_reg_mne(mne) {
            match spec_shape_rrr(s, e) {
                Err(f) => spec_fail_out(f),
                Ok((rd, rs1, rs2, end)) => ParseOut::Matched(
                    TextV {
                        instruction: InstructionDataV {
                            mne,
                            rd: Some(rd),
                            rs1: Some(rs1),
                            rs2: Some(rs2),
                            imm: None,
                        },
                        label: lab,
                        label_dst: None,
                    },
                    end,
                ),
            }
        } else {
            ParseOut::NoMatch
        },
    }
}

fn reg_instr_at(s: &str, i: usize) -> (r: RuleOut)
    requires
        i <= s@.len(),
    ensures
        rule_obeys(r, spec_parse_reg_instr(s@, i as int), s@.len() as int, i as int),
{
    let (lab, i0) = parse_label(s, i);
    match mne_token(s, i0) {
        None => RuleOut::NoMatch,
        Some((mnetok, e)) => {
            if reg_mne(mnetok) {
                match shape_rrr(s, e) {
                    Err(f) => fail_out(f),
                    Ok((rd, rs1, rs2, end)) => RuleOut::Matched(
                        Text {
                            instruction: InstructionData {
                                mne: mnetok.to_owned(),
                                rd: Some(rd),
                                rs1: Some(rs1),
                                rs2: Some(rs2),
                                imm: None,
                            },
                            label: lab,
                            label_dst: None,
                        },
                        end,
                    ),
                }
            } else {
                RuleOut::NoMatch
            }
        },
    }
}

/// An upper-immediate or jump line at `i`: optional label, one of the
/// upper-immediate or jump mnemonics, then `rd imm` without a comma.
pub open spec fn spec_parse_uj(s: Seq<char>, i: int) -> ParseOut {
    let (lab, i0) = spec_opt_label(s, i);
    match spec_mne_token(s, i0) {
        None => ParseOut::NoMatch,
        Some((mne, e)) => if is_uj_mne(mne) {
            match spec_shape_ri(s, e) {
                Err(f) => spec_fail_out(f),
                Ok((rd, imm, end)) => ParseOut::Matched(
                    TextV {
                        instruction: InstructionDataV {
                            mne,
                            rd: Some(rd),
                            rs1: None,
                            rs2: None,
                            imm: Some(imm),
                        },
                        label: lab,
                        label_dst: None,
                    },
                    end,
                ),
            }
        } else {
            ParseOut::NoMatch
        },
    }
}

fn uj_at(s: &str, i: usize) -> (r: RuleOut)
    requires
        i <= s@.len(),
    ensures
        rule_obeys(r, spec_parse_uj(s@, i as int), s@.len() as int, i as int),
{
    let (lab, i0) = parse_label(s, i);
    match mne_token(s, i0) {
        None => RuleOut::NoMatch,
        Some((mnetok, e)) => {
            if uj_mne(mnetok) {
                match shape_ri(s, e) {
                    Err(f) => fail_out(f),
                    Ok((rd, imm, end)) => RuleOut::Matched(
                        Text {
                            instruction: InstructionData {
                                mne: mnetok.to_owned(),
                                rd: Some(rd),
                                rs1: None,
                                rs2: None,
                                imm: Some(imm),
                            },
                            label: lab,
                            label_dst: None,
                        },
                        end,
                    ),
                }
            } else {
                RuleOut::NoMatch
            }
        },
    }
}

/// A jump to a label at `i`: optional label, the jump mnemonic, then
/// `rd label` without a comma.
pub open spec fn spec_parse_jal_pseudo(s: Seq<char>, i: int) -> ParseOut {
    let (lab, i0) = spec_opt_label(s, i);
    match spec_mne_token(s, i0) {
        None => ParseOut::NoMatch,
        Some((mne, e)) => if eq_ignore_case(mne, "jal"@) {
            match spec_shape_rl(s, e) {
                Err(f) => spec_fail_out(f),
                Ok((rd, dst, end)) => ParseOut::Matched(
                    TextV {
                        instruction: InstructionDataV {
                            mne,
                            rd: Some(rd),
                            rs1: None,
                            rs2: None,
                            imm: None,
                        },
                        label: lab,
                        label_dst: Some(dst),
                    },
                    end,
                ),
            }
        } else {
            ParseOut::NoMatch
        },
    }
}

fn jal_pseudo_at(s: &str, i: usize) -> (r: RuleOut)
    requires
        i <= s@.len(),
    ensures
        rule_obeys(r, spec_parse_jal_pseudo(s@, i as int), s@.len() as int, i as int),
{
    let (lab, i0) = parse_label(s, i);
    match mne_token(s, i0) {
        None => RuleOut::NoMatch,
        Some((mnetok, e)) => {
            if str_eq_ic(mnetok, "jal") {
                match shape_rl(s, e) {
                    Err(f) => fail_out(f),
                    Ok((rd, dst, end)) => RuleOut::Matched(
                        Text {
                            instruction: InstructionData {
                                mne: mnetok.to_owned(),
                                rd: Some(rd),
                                rs1: None,
                                rs2: None,
                                imm: None,
                            },
                            label: lab,
                            label_dst: Some(dst),
                        },
                        end,
                    ),
                }
            } else {
                RuleOut::NoMatch
            }
        },
    }
}

/// A register-jump line at `i`: optional label, the register-jump mnemonic,
/// then `rd, imm(rs1)`.
pub open spec fn spec_parse_jalr(s: Seq<char>, i: int) -> ParseOut {
    let (lab, i0) = spec_opt_label(s, i);
    match spec_mne_token(s, i0) {
        None => ParseOut::NoMatch,
        Some((mne, e)) => if eq_ignore_case(mne, "jalr"@) {
            match spec_shape_mem(s, e) {
                Err(f) => spec_fail_out(f),
                Ok((rd, imm, rs1, end)) => ParseOut::Matched(
                    TextV {
                        instruction: InstructionDataV {
                            mne,
                            rd: Some(rd),
                            rs1: Some(rs1),
                            rs2: None,
                            imm: Some(imm),
                        },
                        label: lab,
                        label_dst: None,
                    },
                    end,
                ),
            }
        } else {
            ParseOut::NoMatch
        },
    }
}

fn jalr_at(s: &str, i: usize) -> (r: RuleOut)
    requires
        i <= s@.len(),
    ensures
        rule_obeys(r, spec_parse_jalr(s@, i as int), s@.len() as int, i as int),
{
    let (lab, i0) = parse_label(s, i);
    match mne_token(s, i0) {
        None => RuleOut::NoMatch,
        Some((mnetok, e)) => {
            if str_eq_ic(mnetok, "jalr") {
                match shape_mem(s, e) {
                    Err(f) => fail_out(f),
                    Ok((rd, imm, rs1, end)) => RuleOut::Matched(
                        Text {
                            instruction: InstructionData {
                                mne: mnetok.to_owned(),
                                rd: Some(rd),
                                rs1: Some(rs1),
                                rs2: None,
                                imm: Some(imm),
                            },
                            label: lab,
                            label_dst: None,
                        },
                        end,
                    ),
                }
            } else {
                RuleOut::NoMatch
            }
        },
    }
}

} // verus!

verus! {

/// Parses one load line at the front of the text: `mne rd, imm(rs1)`,
/// optionally preceded by a label definition. Yields the leftover text and
/// the record.
pub fn parse_load_instr(s: &str) -> (r: Result<(&str, Text), AsmError>)
    ensures
        match spec_parse_load(s@, 0) {
            ParseOut::Matched(tv, e) => r matches Ok(p) && p.1@ == tv && p.0@ == s@.subrange(
                e,
                s@.len() as int,
            ),
            ParseOut::NoMatch => r matches Err(er) && er == AsmError::SyntaxError(1u64),
            ParseOut::BadNum => r matches Err(er) && er is NumericOverflow,
            ParseOut::BadReg => r matches Err(er) && er is UnknownRegister,
        },
{
    let n = s.unicode_len();
    match load_at(s, 0) {
        RuleOut::Matched(t, e) => Ok((s.substring_char(e, n), t)),
        RuleOut::NoMatch => Err(AsmError::SyntaxError(1)),
        RuleOut::BadNum => Err(AsmError::NumericOverflow),
        RuleOut::BadReg => Err(AsmError::UnknownRegister),
    }
}

/// Parses one store line at the front of the text: `mne rs2, imm(rs1)`.
pub fn parse_store_instr(s: &str) -> (r: Result<(&str, Text), AsmError>)
    ensures
        match spec_parse_store(s@, 0) {
            ParseOut::Matched(tv, e) => r matches Ok(p) && p.1@ == tv && p.0@ == s@.subrange(
                e,
                s@.len() as int,
            ),
            ParseOut::NoMatch => r matches Err(er) && er == AsmError::SyntaxError(1u64),
            ParseOut::BadNum => r matches Err(er) && er is NumericOverflow,
            ParseOut::BadReg => r matches Err(er) && er is UnknownRegister,
        },
{
    let n = s.unicode_len();
    match store_at(s, 0) {
        RuleOut::Matched(t, e) => Ok((s.substring_char(e, n), t)),
        RuleOut::NoMatch => Err(AsmError::SyntaxError(1)),
        RuleOut::BadNum => Err(AsmError::NumericOverflow),
        RuleOut::BadReg => Err(AsmError::UnknownRegister),
    }
}

/// Parses one branch line with a numeric immediate: `mne rs1, rs2, imm`.
pub fn parse_branch_instr(s: &str) -> (r: Result<(&str, Text), AsmError>)
    ensures
        match spec_parse_branch(s@, 0) {
            ParseOut::Matched(tv, e) => r matches Ok(p) && p.1@ == tv && p.0@ == s@.subrange(
                e,
                s@.len() as int,
            ),
            ParseOut::NoMatch => r matches Err(er) && er == AsmError::SyntaxError(1u64),
            ParseOut::BadNum => r matches Err(er) && er is NumericOverflow,
            ParseOut::BadReg => r matches Err(er) && er is UnknownRegister,
        },
{
    let n = s.unicode_len();
    match branch_at(s, 0) {
        RuleOut::Matched(t, e) => Ok((s.substring_char(e, n), t)),
        RuleOut::NoMatch => Err(AsmError::SyntaxError(1)),
        RuleOut::BadNum => Err(AsmError::NumericOverflow),
        RuleOut::BadReg => Err(AsmError::UnknownRegister),
    }
}

/// Parses one branch line with a label reference: `mne rs1, rs2, label`.
pub fn parse_branch_pseudo_instr(s: &str) -> (r: Result<(&str, Text), AsmError>)
    ensures
        match spec_parse_branch_pseudo(s@, 0) {
            ParseOut::Matched(tv, e) => r matches Ok(p) && p.1@ == tv && p.0@ == s@.subrange(
                e,
                s@.len() as int,
            ),
            ParseOut::NoMatch => r matches Err(er) && er == AsmError::SyntaxError(1u64),
            ParseOut::BadNum => r matches Err(er) && er is NumericOverflow,
            ParseOut::BadReg => r matches Err(er) && er is UnknownRegister,
        },
{
    let n = s.unicode_len();
    match branch_pseudo_at(s, 0) {
        RuleOut::Matched(t, e) => Ok((s.substring_char(e, n), t)),
        RuleOut::NoMatch => Err(AsmError::SyntaxError(1)),
        RuleOut::BadNum => Err(AsmError::NumericOverflow),
        RuleOut::BadReg => Err(AsmError::UnknownRegister),
    }
}

/// Parses one register-immediate line: `mne rd, rs1, imm`.
pub fn parse_imm_instr(s: &str) -> (r: Result<(&str, Text), AsmError>)
    ensures
        match spec_parse_imm_instr(s@, 0) {
            ParseOut::Matched(tv, e) => r matches Ok(p) && p.1@ == tv && p.0@ == s@.subrange(
                e,
                s@.len() as int,
            ),
            ParseOut::NoMatch => r matches Err(er) && er == AsmError::SyntaxError(1u64),
            ParseOut::BadNum => r matches Err(er) && er is NumericOverflow,
            ParseOut::BadReg => r matches Err(er) && er is UnknownRegister,
        },
{
    let n = s.unicode_len();
    match imm_instr_at(s, 0) {
        RuleOut::Matched(t, e) => Ok((s.substring_char(e, n), t)),
        RuleOut::NoMatch => Err(AsmError::SyntaxError(1)),
        RuleOut::BadNum => Err(AsmError::NumericOverflow),
        RuleOut::BadReg => Err(AsmError::UnknownRegister),
    }
}

/// Parses one register-register line: `mne rd, rs1, rs2`.
pub fn parse_reg_instr(s: &str) -> (r: Result<(&str, Text), AsmError>)
    ensures
        match spec_parse_reg_instr(s@, 0) {
            ParseOut::Matched(tv, e) => r matches Ok(p) && p.1@ == tv && p.0@ == s@.subrange(
                e,
                s@.len() as int,
            ),
            ParseOut::NoMatch => r matches Err(er) && er == AsmError::SyntaxError(1u64),
            ParseOut::BadNum => r matches Err(er) && er is NumericOverflow,
            ParseOut::BadReg => r matches Err(er) && er is UnknownRegister,
        },
{
    let n = s.unicode_len();
    match reg_instr_at(s, 0) {
        RuleOut::Matched(t, e) => Ok((s.substring_char(e, n), t)),
        RuleOut::NoMatch => Err(AsmError::SyntaxError(1)),
        RuleOut::BadNum => Err(AsmError::NumericOverflow),
        RuleOut::BadReg => Err(AsmError::UnknownRegister),
    }
}

/// Parses one upper-immediate or jump line: `mne rd imm`, no comma.
pub fn parse_uj_instr(s: &str) -> (r: Result<(&str, Text), AsmError>)
    ensures
        match spec_parse_uj(s@, 0) {
            ParseOut::Matched(tv, e) => r matches Ok(p) && p.1@ == tv && p.0@ == s@.subrange(
                e,
                s@.len() as int,
            ),
            ParseOut::NoMatch => r matches Err(er) && er == AsmError::SyntaxError(1u64),
            ParseOut::BadNum => r matches Err(er) && er is NumericOverflow,
            ParseOut::BadReg => r matches Err(er) && er is UnknownRegister,
        },
{
    let n = s.unicode_len();
    match uj_at(s, 0) {
        RuleOut::Matched(t, e) => Ok((s.substring_char(e, n), t)),
        RuleOut::NoMatch => Err(AsmError::SyntaxError(1)),
        RuleOut::BadNum => Err(AsmError::NumericOverflow),
        RuleOut::BadReg => Err(AsmError::UnknownRegister),
    }
}

/// Parses one jump-to-label line: `jal rd label`, no comma.
pub fn parse_jal_pseudo_instr(s: &str) -> (r: Result<(&str, Text), AsmError>)
    ensures
        match spec_parse_jal_pseudo(s@, 0) {
            ParseOut::Matched(tv, e) => r matches Ok(p) && p.1@ == tv && p.0@ == s@.subrange(
                e,
                s@.len() as int,
            ),
            ParseOut::NoMatch => r matches Err(er) && er == AsmError::SyntaxError(1u64),
            ParseOut::BadNum => r matches Err(er) && er is NumericOverflow,
            ParseOut::BadReg => r matches Err(er) && er is UnknownRegister,
        },
{
    let n = s.unicode_len();
    match jal_pseudo_at(s, 0) {
        RuleOut::Matched(t, e) => Ok((s.substring_char(e, n), t)),
        RuleOut::NoMatch => Err(AsmError::SyntaxError(1)),
        RuleOut::BadNum => Err(AsmError::NumericOverflow),
        RuleOut::BadReg => Err(AsmError::UnknownRegister),
    }
}

/// Parses one register-jump line: `jalr rd, imm(rs1)`.
pub fn parse_jalr_instr(s: &str) -> (r: Result<(&str, Text), AsmError>)
    ensures
        match spec_parse_jalr(s@, 0) {
            ParseOut::Matched(tv, e) => r matches Ok(p) && p.1@ == tv && p.0@ == s@.subrange(
                e,
                s@.len() as int,
            ),
            ParseOut::NoMatch => r matches Err(er) && er == AsmError::SyntaxError(1u64),
            ParseOut::BadNum => r matches Err(er) && er is NumericOverflow,
            ParseOut::BadReg => r matches Err(er) && er is UnknownRegister,
        },
{
    let n = s.unicode_len();
    match jalr_at(s, 0) {
        RuleOut::Matched(t, e) => Ok((s.substring_char(e, n), t)),
        RuleOut::NoMatch => Err(AsmError::SyntaxError(1)),
        RuleOut::BadNum => Err(AsmError::NumericOverflow),
        RuleOut::BadReg => Err(AsmError::UnknownRegister),
    }
}

/// The first rule of the grammar that speaks at `i`, tried in the grammar's
/// fixed order.
pub open spec fn spec_parse_rules(s: Seq<char>, i: int) -> ParseOut {
    match spec_parse_load(s, i) {
        ParseOut::NoMatch => match spec_parse_store(s, i) {
            ParseOut::NoMatch => match spec_parse_branch(s, i) {
                ParseOut::NoMatch => match spec_parse_branch_pseudo(s, i) {
                    ParseOut::NoMatch => match spec_parse_imm_instr(s, i) {
                        ParseOut::NoMatch => match spec_parse_reg_instr(s, i) {
                            ParseOut::NoMatch => match spec_parse_uj(s, i) {
                                ParseOut::NoMatch => match spec_parse_jal_pseudo(s, i) {
                                    ParseOut::NoMatch => spec_parse_jalr(s, i),
                                    other => other,
                                },
                                other => other,
                            },
                            other => other,
                        },
                        other => other,
                    },
                    other => other,
                },
                other => other,
            },
            other => other,
        },
        other => other,
    }
}

/// Tries each grammar rule at `i` in order.
fn rules_at(s: &str, i: usize) -> (r: RuleOut)
    requires
        i <= s@.len(),
    ensures
        rule_obeys(r, spec_parse_rules(s@, i as int), s@.len() as int, i as int),
{
    match load_at(s, i) {
        RuleOut::NoMatch => (),
        other => {
            return other;
        },
    }
    match store_at(s, i) {
        RuleOut::NoMatch => (),
        other => {
            return other;
        },
    }
    match branch_at(s, i) {
        RuleOut::NoMatch => (),
        other => {
            return other;
        },
    }
    match branch_pseudo_at(s, i) {
        RuleOut::NoMatch => (),
        other => {
            return other;
        },
    }
    match imm_instr_at(s, i) {
        RuleOut::NoMatch => (),
        other => {
            return other;
        },
    }
    match reg_instr_at(s, i) {
        RuleOut::NoMatch => (),
        other => {
            return other;
        },
    }
    match uj_at(s, i) {
        RuleOut::NoMatch => (),
        other => {
            return other;
        },
    }
    match jal_pseudo_at(s, i) {
        RuleOut::NoMatch => (),
        other => {
            return other;
        },
    }
    jalr_at(s, i)
}

/// Where the instruction records start: leading whitespace and an optional
/// ".text" heading skipped.
pub open spec fn spec_text_start(s: Seq<char>) -> int {
    let a = skip_multispace(s, 0);
    if a + 5 <= s.len() && s.subrange(a, a + 5) == ".text"@ {
        skip_multispace(s, a + 5)
    } else {
        a
    }
}

fn text_start_x(s: &str) -> (r: usize)
    ensures
        r as int == spec_text_start(s@),
        r <= s@.len(),
{
    let n = s.unicode_len();
    let a = skip_multispace_x(s, 0);
    if n - a >= 5 {
        let t = s.substring_char(a, a + 5);
        if str_eq(t, ".text") {
            return skip_multispace_x(s, a + 5);
        }
    }
    a
}

/// The outcome of scanning the text segment from a position on.
pub enum TextScan {
    /// The records matched, and the position where no rule speaks any more.
    Done(Seq<TextV>, int),
    /// A rule matched up to a numeric literal that overflows.
    BadNum,
    /// A rule matched up to a register operand that names no register.
    BadReg,
}

/// The records the grammar yields from `i` on: rules tried in order, each
/// match consuming text, until no rule speaks.
pub open spec fn spec_parse_text_from(s: Seq<char>, i: int) -> TextScan
    decreases s.len() - i,
{
    match spec_parse_rules(s, i) {
        ParseOut::Matched(t, end) => if i < end <= s.len() {
            match spec_parse_text_from(s, end) {
                TextScan::Done(rest, e2) => TextScan::Done(seq![t] + rest, e2),
                other => other,
            }
        } else {
            // a rule that consumes nothing cannot arise; close the walk here
            TextScan::Done(seq![], i)
        },
        ParseOut::NoMatch => TextScan::Done(seq![], i),
        ParseOut::BadNum => TextScan::BadNum,
        ParseOut::BadReg => TextScan::BadReg,
    }
}

/// What scanning the whole text segment yields.
pub open spec fn spec_parse_text(s: Seq<char>) -> TextScan {
    spec_parse_text_from(s, spec_text_start(s))
}

/// Parses the text segment: an optional ".text" heading, then instruction
/// lines while any grammar rule speaks. Yields the leftover text and the
/// records in source order; there are never more records than characters.
pub fn parse_text(s: &str) -> (r: Result<(&str, Vec<Text>), AsmError>)
    ensures
        match spec_parse_text(s@) {
            TextScan::Done(ts, e) => r matches Ok(p) && p.1@.map_values(|t: Text| t@) == ts && 0
                <= e <= s@.len() && p.0@ == s@.subrange(e, s@.len() as int) && p.1@.len()
                <= s@.len(),
            TextScan::BadNum => r matches Err(er) && er is NumericOverflow,
            TextScan::BadReg => r matches Err(er) && er is UnknownRegister,
        },
{
    let n = s.unicode_len();
    let start = text_start_x(s);
    let mut pos = start;
    let mut out: Vec<Text> = Vec::new();
    loop
        invariant
            start <= pos <= n,
            n == s@.len(),
            out@.len() + start <= pos,
            (match spec_parse_text_from(s@, pos as int) {
                TextScan::Done(rest, e) => spec_parse_text(s@) == TextScan::Done(
                    out@.map_values(|t: Text| t@) + rest,
                    e,
                ),
                TextScan::BadNum => spec_parse_text(s@) is BadNum,
                TextScan::BadReg => spec_parse_text(s@) is BadReg,
            }),
        ensures
            pos <= n,
            n == s@.len(),
            out@.len() <= n,
            spec_parse_text(s@) == TextScan::Done(out@.map_values(|t: Text| t@), pos as int),
        decreases n - pos,
    {
        match rules_at(s, pos) {
            RuleOut::NoMatch => {
                proof {
                    assert(out@.map_values(|t: Text| t@) + Seq::<TextV>::empty() =~= out@.map_values(
                        |t: Text| t@,
                    ));
                }
                break ;
            },
            RuleOut::BadNum => {
                return Err(AsmError::NumericOverflow);
            },
            RuleOut::BadReg => {
                return Err(AsmError::UnknownRegister);
            },
            RuleOut::Matched(t, end) => {
                proof {
                    let prev = out@.map_values(|t: Text| t@);
                    let tv = t@;
                    match spec_parse_text_from(s@, end as int) {
                        TextScan::Done(rest2, e2) => {
                            assert(prev + (seq![tv] + rest2) =~= prev.push(tv) + rest2);
                        },
                        TextScan::BadNum => {},
                        TextScan::BadReg => {},
                    }
                }
                let ghost prev_seq = out@;
                out.push(t);
                proof {
                    assert(out@.map_values(|t: Text| t@) =~= prev_seq.map_values(|t: Text| t@).push(
                        out@[prev_seq.len() as int]@,
                    ));
                }
                pos = end;
            },
        }
    }
    Ok((s.substring_char(pos, n), out))
}

} // verus!
