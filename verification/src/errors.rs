//! Error values of the two stages. A lexical error aborts the whole
//! scan; a syntax error aborts the whole parse and carries the token
//! position at which the mismatch was found.

use vstd::prelude::*;

verus! {

/// An unexpected character, or a malformed numeric word, found while
/// scanning. Fatal to the whole tokenize call.
#[derive(Debug, PartialEq, Eq)]
pub struct LexerError {
    pub message: String,
}

/// An expected-but-missing token found while parsing, including running
/// past the end of the token sequence. Fatal to the whole parse call.
#[derive(Debug, PartialEq, Eq)]
pub struct ParserError {
    pub message: String,
    pub position: usize,
}

} // verus!
