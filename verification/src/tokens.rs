//! Tokens: the classified lexical units the scanner emits, and the
//! classification of a completed word into a token.
//!
//! A word is classified, in priority order, as keyword, punctuation,
//! operator, integer literal, float literal, quoted string literal, and
//! otherwise as a bare identifier. A float literal's payload is kept as
//! its spelling: the token stages never compute with it.

use vstd::prelude::*;
use crate::chars;
use crate::grammar::{self, GrammarType};
use crate::keywords::{self, KeywordType};
use crate::operators::{self, OperatorType};

verus! {

#[derive(Debug, Clone, PartialEq)]
pub enum Token {
    Keyword(KeywordType),
    Identifier(String),
    Integer(i64),
    /// A float literal, kept as its spelling (digits with at most one
    /// decimal point, or an all-digit word too large for an integer).
    Float(String),
    /// A quoted string, with the surrounding quotes stripped.
    StringLiteral(String),
    Grammar(GrammarType),
    Operator(OperatorType),
}

/// The mathematical value of a token: payload strings as character
/// sequences.
#[verifier::ext_equal]
pub enum TokenV {
    Keyword(KeywordType),
    Identifier(Seq<char>),
    Integer(i64),
    Float(Seq<char>),
    StringLiteral(Seq<char>),
    Grammar(GrammarType),
    Operator(OperatorType),
}

impl View for Token {
    type V = TokenV;

    open spec fn view(&self) -> TokenV {
        match self {
            Token::Keyword(k) => TokenV::Keyword(*k),
            Token::Identifier(s) => TokenV::Identifier(s@),
            Token::Integer(i) => TokenV::Integer(*i),
            Token::Float(s) => TokenV::Float(s@),
            Token::StringLiteral(s) => TokenV::StringLiteral(s@),
            Token::Grammar(g) => TokenV::Grammar(*g),
            Token::Operator(o) => TokenV::Operator(*o),
        }
    }
}

impl DeepView for Token {
    type V = TokenV;

    open spec fn deep_view(&self) -> TokenV {
        self.view()
    }
}

/// Whether every character of the word is a decimal digit.
pub open spec fn spec_all_digits(w: Seq<char>) -> bool {
    forall|i: int| 0 <= i < w.len() ==> chars::spec_is_digit(#[trigger] w[i])
}

/// The numeric value of an all-digit word.
pub open spec fn spec_digits_val(w: Seq<char>) -> int
    decreases w.len(),
{
    if w.len() == 0 {
        0
    } else {
        spec_digits_val(w.drop_last()) * 10 + chars::spec_digit_val(w.last())
    }
}

/// How many characters of the word are decimal digits.
pub open spec fn spec_digit_count(w: Seq<char>) -> int
    decreases w.len(),
{
    if w.len() == 0 {
        0
    } else {
        spec_digit_count(w.drop_last()) + if chars::spec_is_digit(w.last()) {
            1int
        } else {
            0int
        }
    }
}

/// How many characters of the word are decimal points.
pub open spec fn spec_dot_count(w: Seq<char>) -> int
    decreases w.len(),
{
    if w.len() == 0 {
        0
    } else {
        spec_dot_count(w.drop_last()) + if w.last() == '.' {
            1int
        } else {
            0int
        }
    }
}

/// An integer literal: a non-empty all-digit word whose value fits in
/// an `i64`.
pub open spec fn spec_is_integer_word(w: Seq<char>) -> bool {
    w.len() >= 1 && spec_all_digits(w) && spec_digits_val(w) <= i64::MAX as int
}

/// A float literal: digits and at most one decimal point, at least one
/// digit, nothing else, and not an integer literal.
pub open spec fn spec_is_float_word(w: Seq<char>) -> bool {
    &&& spec_digit_count(w) >= 1
    &&& spec_dot_count(w) <= 1
    &&& spec_digit_count(w) + spec_dot_count(w) == w.len()
    &&& !spec_is_integer_word(w)
}

/// A quoted string word: at least two characters, wrapped in one and the
/// same quote character.
pub open spec fn spec_is_string_word(w: Seq<char>) -> bool {
    w.len() >= 2 && chars::spec_is_quote(w[0]) && w.last() == w[0]
}

/// The token a completed word is classified as, in priority order:
/// keyword, punctuation, operator, integer, float, quoted string,
/// identifier.
pub open spec fn spec_classify(w: Seq<char>) -> TokenV {
    if keywords::spec_keyword_of(w) is Some {
        TokenV::Keyword(keywords::spec_keyword_of(w)->Some_0)
    } else if grammar::spec_grammar_of(w) is Some {
        TokenV::Grammar(grammar::spec_grammar_of(w)->Some_0)
    } else if operators::spec_operator_of(w) is Some {
        TokenV::Operator(operators::spec_operator_of(w)->Some_0)
    } else if spec_is_integer_word(w) {
        TokenV::Integer(spec_digits_val(w) as i64)
    } else if spec_is_float_word(w) {
        TokenV::Float(w)
    } else if spec_is_string_word(w) {
        TokenV::StringLiteral(w.subrange(1, w.len() - 1))
    } else {
        TokenV::Identifier(w)
    }
}

/// The value of an all-digit word is never negative.
pub proof fn lemma_digits_val_nonneg(w: Seq<char>)
    requires
        spec_all_digits(w),
    ensures
        spec_digits_val(w) >= 0,
    decreases w.len(),
{
    if w.len() > 0 {
        assert(spec_all_digits(w.drop_last()));
        lemma_digits_val_nonneg(w.drop_last());
    }
}

/// Scan an all-digit word's value, reporting whether it fits in an `i64`.
fn digits_value(w: &[char]) -> (r: (u64, bool))
    requires
        spec_all_digits(w@),
    ensures
        r.1 == (spec_digits_val(w@) <= i64::MAX as int),
        r.1 ==> r.0 as int == spec_digits_val(w@),
{
    let n = w.len();
    let mut acc: u64 = 0;
    let mut ok: bool = true;
    let mut i: usize = 0;
    while i < n
        invariant
            n == w@.len(),
            0 <= i <= n,
            spec_all_digits(w@),
            ok == (spec_digits_val(w@.subrange(0, i as int)) <= i64::MAX as int),
            ok ==> acc as int == spec_digits_val(w@.subrange(0, i as int)),
        decreases n - i,
    {
        let ghost pre = w@.subrange(0, i as int);
        let ghost post = w@.subrange(0, i + 1 as int);
        proof {
            assert(post.drop_last() =~= pre);
            assert(post.last() == w@[i as int]);
            assert(spec_all_digits(pre));
            assert(spec_all_digits(post));
            lemma_digits_val_nonneg(pre);
        }
        let d: u64 = (w[i] as u32 - 48) as u64;
        // i64::MAX is 10 * 922337203685477580 + 7, so appending the digit
        // keeps the value in range exactly under this test.
        if ok {
            if acc < 922337203685477580u64 || (acc == 922337203685477580u64 && d <= 7) {
                acc = acc * 10 + d;
            } else {
                ok = false;
            }
        }
        i += 1;
    }
    proof {
        assert(w@.subrange(0, n as int) =~= w@);
    }
    (acc, ok)
}

/// Whether every character of the word is a decimal digit.
fn all_digits(w: &[char]) -> (r: bool)
    ensures
        r == spec_all_digits(w@),
{
    let n = w.len();
    let mut i: usize = 0;
    while i < n
        invariant
            n == w@.len(),
            0 <= i <= n,
            forall|j: int| 0 <= j < i ==> chars::spec_is_digit(#[trigger] w@[j]),
        decreases n - i,
    {
        if !chars::is_digit_char(w[i]) {
            return false;
        }
        i += 1;
    }
    true
}

/// Count the decimal digits and the decimal points of a word.
fn digit_and_dot_counts(w: &[char]) -> (r: (usize, usize))
    ensures
        r.0 as int == spec_digit_count(w@),
        r.1 as int == spec_dot_count(w@),
        r.0 + r.1 <= w@.len(),
{
    let n = w.len();
    let mut digits: usize = 0;
    let mut dots: usize = 0;
    let mut i: usize = 0;
    proof {
        lemma_counts_bounded(w@);
    }
    while i < n
        invariant
            n == w@.len(),
            0 <= i <= n,
            digits as int == spec_digit_count(w@.subrange(0, i as int)),
            dots as int == spec_dot_count(w@.subrange(0, i as int)),
            digits + dots <= i,
        decreases n - i,
    {
        let ghost pre = w@.subrange(0, i as int);
        let ghost post = w@.subrange(0, i + 1 as int);
        proof {
            assert(post.drop_last() =~= pre);
        }
        if chars::is_digit_char(w[i]) {
            digits += 1;
        } else if w[i] == '.' {
            dots += 1;
        }
        i += 1;
    }
    proof {
        assert(w@.subrange(0, n as int) =~= w@);
    }
    (digits, dots)
}

/// The two counts never exceed the word's length.
pub(crate) proof fn lemma_counts_bounded(w: Seq<char>)
    ensures
        0 <= spec_digit_count(w),
        0 <= spec_dot_count(w),
        spec_digit_count(w) + spec_dot_count(w) <= w.len(),
    decreases w.len(),
{
    if w.len() > 0 {
        lemma_counts_bounded(w.drop_last());
    }
}

/// Classify one completed word as a token.
pub fn classify_word(w: &[char]) -> (r: Token)
    ensures
        r@ == spec_classify(w@),
{
    if let Some(k) = keywords::keyword_of_chars(w) {
        return Token::Keyword(k);
    }
    if w.len() == 1 {
        if let Some(g) = grammar::grammar_of_char(w[0]) {
            return Token::Grammar(g);
        }
    }
    if let Some(o) = operators::operator_of_chars(w) {
        return Token::Operator(o);
    }
    if w.len() >= 1 && all_digits(w) {
        let (value, fits) = digits_value(w);
        if fits {
            return Token::Integer(value as i64);
        }
        proof {
            lemma_counts_all_digits(w@);
        }
        return Token::Float(chars::string_from_chars(w));
    }
    let (digits, dots) = digit_and_dot_counts(w);
    if digits >= 1 && dots <= 1 && digits + dots == w.len() {
        return Token::Float(chars::string_from_chars(w));
    }
    if w.len() >= 2 && chars::is_quote(w[0]) && w[w.len() - 1] == w[0] {
        let inner = chars::slice_copy(w, 1, w.len() - 1);
        return Token::StringLiteral(chars::string_from_chars(inner.as_slice()));
    }
    Token::Identifier(chars::string_from_chars(w))
}

/// In an all-digit word every character counts as a digit and none as a
/// decimal point.
proof fn lemma_counts_all_digits(w: Seq<char>)
    requires
        spec_all_digits(w),
    ensures
        spec_digit_count(w) == w.len(),
        spec_dot_count(w) == 0,
    decreases w.len(),
{
    if w.len() > 0 {
        assert(spec_all_digits(w.drop_last()));
        lemma_counts_all_digits(w.drop_last());
    }
}

} // verus!
