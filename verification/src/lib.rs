//! Front end of a small declarative query language: a character-level
//! tokenizer and a recursive-descent parser that turn SELECT-style query
//! text into a typed abstract syntax tree.
//!
//! Each stage is specified against a mathematical model of its input: the
//! tokenizer against a state-machine scan over the character sequence, the
//! parser against grammar-production functions over the token sequence.

pub mod ast;
pub mod chars;
pub mod errors;
pub mod grammar;
pub mod keywords;
pub mod laws;
pub mod operators;
pub mod parser;
pub mod text;
pub mod tokenizer;
pub mod tokens;
