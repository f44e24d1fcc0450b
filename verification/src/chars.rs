//! Character classes of the assembly grammar, scanning over string views,
//! and string comparison (exact and ASCII case-insensitive).

use vstd::prelude::*;

verus! {

/// A space or a tab: the characters that may separate tokens within one line.
pub open spec fn is_space_char(c: char) -> bool {
    c == ' ' || c == '\t'
}

/// Any whitespace, line breaks included.
pub open spec fn is_multispace_char(c: char) -> bool {
    c == ' ' || c == '\t' || c == '\n' || c == '\r'
}

/// An ASCII decimal digit.
pub open spec fn is_digit_char(c: char) -> bool {
    48 <= c as int && c as int <= 57
}

/// An ASCII upper-case letter.
pub open spec fn is_upper_char(c: char) -> bool {
    65 <= c as int && c as int <= 90
}

/// An ASCII lower-case letter.
pub open spec fn is_lower_char(c: char) -> bool {
    97 <= c as int && c as int <= 122
}

/// An ASCII letter or digit: the characters a mnemonic, register or numeric
/// token is made of.
pub open spec fn is_alnum_char(c: char) -> bool {
    is_digit_char(c) || is_upper_char(c) || is_lower_char(c)
}

/// A character a label name may contain: anything but whitespace and ':'.
pub open spec fn is_label_char(c: char) -> bool {
    !(c == ' ' || c == '\t' || c == '\n' || c == '\r' || c == ':')
}

/// Two characters match ignoring ASCII case.
pub open spec fn char_eq_ic(a: char, b: char) -> bool {
    a == b || (is_upper_char(a) && a as int + 32 == b as int) || (is_upper_char(b) && b as int
        + 32 == a as int)
}

/// Two strings match ignoring ASCII case.
pub open spec fn eq_ignore_case(a: Seq<char>, b: Seq<char>) -> bool {
    a.len() == b.len() && (forall|i: int| 0 <= i < a.len() ==> char_eq_ic(a[i], b[i]))
}

pub fn space_char(c: char) -> (r: bool)
    ensures
        r == is_space_char(c),
{
    c == ' ' || c == '\t'
}

pub fn multispace_char(c: char) -> (r: bool)
    ensures
        r == is_multispace_char(c),
{
    c == ' ' || c == '\t' || c == '\n' || c == '\r'
}

pub fn alnum_char(c: char) -> (r: bool)
    ensures
        r == is_alnum_char(c),
{
    let v = c as u32;
    (48 <= v && v <= 57) || (65 <= v && v <= 90) || (97 <= v && v <= 122)
}

pub fn label_char(c: char) -> (r: bool)
    ensures
        r == is_label_char(c),
{
    !(c == ' ' || c == '\t' || c == '\n' || c == '\r' || c == ':')
}

pub fn char_ic(a: char, b: char) -> (r: bool)
    ensures
        r == char_eq_ic(a, b),
{
    if a == b {
        true
    } else {
        let x = a as u32;
        let y = b as u32;
        (65 <= x && x <= 90 && x + 32 == y) || (65 <= y && y <= 90 && y + 32 == x)
    }
}

/// Exact string equality.
pub fn str_eq(a: &str, b: &str) -> (r: bool)
    ensures
        r == (a@ == b@),
{
    let na = a.unicode_len();
    let nb = b.unicode_len();
    if na != nb {
        return false;
    }
    let mut i: usize = 0;
    while i < na
        invariant
            na == a@.len(),
            na == b@.len(),
            i <= na,
            forall|j: int| 0 <= j < i ==> a@[j] == b@[j],
        decreases na - i,
    {
        if a.get_char(i) != b.get_char(i) {
            return false;
        }
        i = i + 1;
    }
    proof {
        assert(a@ =~= b@);
    }
    true
}

/// String equality ignoring ASCII case.
pub fn str_eq_ic(a: &str, b: &str) -> (r: bool)
    ensures
        r == eq_ignore_case(a@, b@),
{
    let na = a.unicode_len();
    let nb = b.unicode_len();
    if na != nb {
        return false;
    }
    let mut i: usize = 0;
    while i < na
        invariant
            na == a@.len(),
            na == b@.len(),
            i <= na,
            forall|j: int| 0 <= j < i ==> char_eq_ic(a@[j], b@[j]),
        decreases na - i,
    {
        if !char_ic(a.get_char(i), b.get_char(i)) {
            return false;
        }
        i = i + 1;
    }
    true
}

/// The position of the first character at or after `i` that is not a space
/// or a tab.
pub open spec fn skip_space(s: Seq<char>, i: int) -> int
    decreases s.len() - i,
{
    if 0 <= i < s.len() && is_space_char(s[i]) {
        skip_space(s, i + 1)
    } else {
        i
    }
}

/// The position of the first character at or after `i` that is not whitespace.
pub open spec fn skip_multispace(s: Seq<char>, i: int) -> int
    decreases s.len() - i,
{
    if 0 <= i < s.len() && is_multispace_char(s[i]) {
        skip_multispace(s, i + 1)
    } else {
        i
    }
}

/// The position just past the run of letters and digits starting at `i`.
pub open spec fn alnum_end(s: Seq<char>, i: int) -> int
    decreases s.len() - i,
{
    if 0 <= i < s.len() && is_alnum_char(s[i]) {
        alnum_end(s, i + 1)
    } else {
        i
    }
}

/// The position just past the run of label characters starting at `i`.
pub open spec fn label_end(s: Seq<char>, i: int) -> int
    decreases s.len() - i,
{
    if 0 <= i < s.len() && is_label_char(s[i]) {
        label_end(s, i + 1)
    } else {
        i
    }
}

pub fn skip_space_x(s: &str, i: usize) -> (j: usize)
    requires
        i <= s@.len(),
    ensures
        j == skip_space(s@, i as int),
        i <= j <= s@.len(),
{
    let n = s.unicode_len();
    let mut j = i;
    while j < n
        invariant
            i <= j <= n,
            n == s@.len(),
            skip_space(s@, i as int) == skip_space(s@, j as int),
        ensures
            i <= j <= n,
            skip_space(s@, i as int) == skip_space(s@, j as int),
            j == n || !is_space_char(s@[j as int]),
        decreases n - j,
    {
        if !space_char(s.get_char(j)) {
            break ;
        }
        j = j + 1;
    }
    j
}

pub fn skip_multispace_x(s: &str, i: usize) -> (j: usize)
    requires
        i <= s@.len(),
    ensures
        j == skip_multispace(s@, i as int),
        i <= j <= s@.len(),
{
    let n = s.unicode_len();
    let mut j = i;
    while j < n
        invariant
            i <= j <= n,
            n == s@.len(),
            skip_multispace(s@, i as int) == skip_multispace(s@, j as int),
        ensures
            i <= j <= n,
            skip_multispace(s@, i as int) == skip_multispace(s@, j as int),
            j == n || !is_multispace_char(s@[j as int]),
        decreases n - j,
    {
        if !multispace_char(s.get_char(j)) {
            break ;
        }
        j = j + 1;
    }
    j
}

pub fn alnum_end_x(s: &str, i: usize) -> (j: usize)
    requires
        i <= s@.len(),
    ensures
        j == alnum_end(s@, i as int),
        i <= j <= s@.len(),
{
    let n = s.unicode_len();
    let mut j = i;
    while j < n
        invariant
            i <= j <= n,
            n == s@.len(),
            alnum_end(s@, i as int) == alnum_end(s@, j as int),
        ensures
            i <= j <= n,
            alnum_end(s@, i as int) == alnum_end(s@, j as int),
            j == n || !is_alnum_char(s@[j as int]),
        decreases n - j,
    {
        if !alnum_char(s.get_char(j)) {
            break ;
        }
        j = j + 1;
    }
    j
}

pub fn label_end_x(s: &str, i: usize) -> (j: usize)
    requires
        i <= s@.len(),
    ensures
        j == label_end(s@, i as int),
        i <= j <= s@.len(),
{
    let n = s.unicode_len();
    let mut j = i;
    while j < n
        invariant
            i <= j <= n,
            n == s@.len(),
            label_end(s@, i as int) == label_end(s@, j as int),
        ensures
            i <= j <= n,
            label_end(s@, i as int) == label_end(s@, j as int),
            j == n || !is_label_char(s@[j as int]),
        decreases n - j,
    {
        if !label_char(s.get_char(j)) {
            break ;
        }
        j = j + 1;
    }
    j
}

} // verus!
