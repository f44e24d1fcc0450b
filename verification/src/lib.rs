//! An assembler for a 32-bit RISC instruction set: it parses assembly text,
//! resolves labels in two passes, and packs each instruction into its
//! 4-byte machine-code word, most significant byte first.

pub mod btype;
pub mod chars;
pub mod datadir;
pub mod driver;
pub mod errors;
pub mod instruction;
pub mod instructions;
pub mod itype;
pub mod jtype;
pub mod numbers;
pub mod parser;
pub mod resolver;
pub mod rtype;
pub mod stype;
pub mod translate;
pub mod types;
pub mod utype;
pub mod wellformed;
