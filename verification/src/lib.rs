//! A lexical scanner for a small expression language.
//!
//! The scanner reads source text one character at a time and produces the
//! ordered sequence of tokens it recognises: one token for each statement,
//! closed by an `Empty` marker.
//!
//! - [`token`] holds the tokens and the ways a scan can fail;
//! - [`digits`] holds the arithmetic of decimal digits;
//! - [`machine`] states the scan as a state machine over mathematical values;
//! - [`statement`] states what a program says, statement by statement;
//! - [`scanner`] is the executable scanner, specified against both;
//! - [`laws`] proves that the two readings agree, and what follows.

pub mod digits;
pub mod laws;
pub mod machine;
pub mod scanner;
pub mod statement;
pub mod token;

pub use scanner::{scan, tokenizer, Scanner};
pub use token::{ScanError, Token, TokenModel};
