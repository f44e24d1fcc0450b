//! The failures an assembly unit can end in. Every one is terminal: the
//! driver surfaces the first failure and produces no bytes.

use vstd::prelude::*;

verus! {

#[derive(Debug, PartialEq, Clone)]
pub enum AsmError {
    /// A register operand names no architectural register.
    UnknownRegister,
    /// A mnemonic names no instruction.
    UnknownMnemonic,
    /// No grammar rule matches a non-blank line; carries the 1-based line
    /// number of the offending text.
    SyntaxError(u64),
    /// A numeric literal does not fit a 32-bit word after radix conversion.
    NumericOverflow,
    /// Two label definitions share a name; carries that name.
    DuplicateLabel(String),
    /// A referenced label is defined nowhere; carries that name.
    UndefinedLabel(String),
    /// A resolved PC-relative immediate does not fit its format's signed
    /// field width, or is odd.
    ImmediateOutOfRange,
}

} // verus!
