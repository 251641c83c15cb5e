//! The front end: tokens, scanner and parser.

pub mod ast;
pub mod environment;
pub mod error;
pub mod grammar;
pub mod laws;
pub mod parser;
pub mod progress;
pub mod scanner;
pub mod token;
pub mod typing;

pub use crate::compiler::scanner::{is_letter, tokenize, Scanner};
