//! Punctuation symbols of the query language. Each one is a single
//! character and also acts as a token terminator during scanning.

use vstd::prelude::*;
use vstd::string::StrSliceExecFns;

verus! {

#[derive(Debug, Clone, Copy, PartialEq, Eq, Structural)]
pub enum GrammarType {
    Comma,
    Semicolon,
    Asterisk,
    OpenParen,
    CloseParen,
}

/// The punctuation symbol a word spells, if any: a single character
/// among `,`, `;`, `*`, `(` and `)`.
pub open spec fn spec_grammar_of(w: Seq<char>) -> Option<GrammarType> {
    if w.len() == 1 {
        spec_grammar_of_char(w[0])
    } else {
        None
    }
}

/// The punctuation symbol a single character spells, if any.
pub open spec fn spec_grammar_of_char(c: char) -> Option<GrammarType> {
    if c == ',' {
        Some(GrammarType::Comma)
    } else if c == '*' {
        Some(GrammarType::Asterisk)
    } else if c == '(' {
        Some(GrammarType::OpenParen)
    } else if c == ')' {
        Some(GrammarType::CloseParen)
    } else if c == ';' {
        Some(GrammarType::Semicolon)
    } else {
        None
    }
}

/// The single character that spells a punctuation symbol.
pub open spec fn spec_grammar_char(g: GrammarType) -> char {
    match g {
        GrammarType::Comma => ',',
        GrammarType::Semicolon => ';',
        GrammarType::Asterisk => '*',
        GrammarType::OpenParen => '(',
        GrammarType::CloseParen => ')',
    }
}

/// The spelling of a punctuation symbol, as a one-character sequence.
pub open spec fn spec_grammar_text(g: GrammarType) -> Seq<char> {
    seq![spec_grammar_char(g)]
}

pub fn grammar_of_char(c: char) -> (r: Option<GrammarType>)
    ensures
        r == spec_grammar_of_char(c),
{
    if c == ',' {
        Some(GrammarType::Comma)
    } else if c == '*' {
        Some(GrammarType::Asterisk)
    } else if c == '(' {
        Some(GrammarType::OpenParen)
    } else if c == ')' {
        Some(GrammarType::CloseParen)
    } else if c == ';' {
        Some(GrammarType::Semicolon)
    } else {
        None
    }
}

pub fn is_grammar_type(word: &str) -> (r: Option<GrammarType>)
    ensures
        r == spec_grammar_of(word@),
{
    if word.unicode_len() == 1 {
        grammar_of_char(word.get_char(0))
    } else {
        None
    }
}

/// The spelling of a punctuation symbol, for diagnostics.
pub fn grammar_text(g: &GrammarType) -> (r: &'static str)
    ensures
        r@ == spec_grammar_text(*g),
{
    proof {
        reveal_strlit(",");
        reveal_strlit(";");
        reveal_strlit("*");
        reveal_strlit("(");
        reveal_strlit(")");
    }
    match g {
        GrammarType::Comma => ",",
        GrammarType::Semicolon => ";",
        GrammarType::Asterisk => "*",
        GrammarType::OpenParen => "(",
        GrammarType::CloseParen => ")",
    }
}

} // verus!
