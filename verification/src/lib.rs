//! A two-pass assembler for the Hack machine language.
//!
//! Source programs are line-oriented: an address instruction `@value` loads a
//! 15-bit literal or symbolic address into the address register, a compute
//! instruction `dest=comp;jump` drives the ALU, and a label declaration
//! `(NAME)` binds a name to the address of the next real instruction. The
//! library normalizes raw source lines, classifies them, resolves labels and
//! variables through a symbol table over two passes, and encodes each real
//! instruction as a 16-bit machine word.

pub mod chars;
pub mod classify;
pub mod code;
pub mod driver;
pub mod laws;
pub mod symbols;
