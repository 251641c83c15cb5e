//! A small scripting language: scanner, single-pass parser with lexical
//! scopes, and a register machine for its bytecode.

pub mod compiler;
pub mod instruction;
pub mod repl;
pub mod text;
pub mod vm;
