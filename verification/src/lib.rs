//! A single-pass lexical scanner for a small C-like language.
//!
//! The scanner turns source text into an ordered list of events: the tokens
//! it recognised and the diagnostics it raised. Every function is stated
//! against a mathematical description of the scan over `Seq<char>`.

pub mod chars;
pub mod cursor;
pub mod event;
pub mod laws;
pub mod number;
pub mod report;
pub mod scanner;
pub mod strings;
pub mod text;
pub mod token;
