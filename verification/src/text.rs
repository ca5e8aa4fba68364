//! Display text for tokens and numbers, used in parser diagnostics.

use vstd::prelude::*;
use vstd::string::StringExecFns;
use crate::chars;
use crate::keywords;
use crate::grammar;
use crate::operators;
use crate::tokens::{Token, TokenV};

verus! {

/// The decimal digit character for a value from 0 through 9.
pub open spec fn spec_digit_char(d: int) -> char {
    if d == 0 {
        '0'
    } else if d == 1 {
        '1'
    } else if d == 2 {
        '2'
    } else if d == 3 {
        '3'
    } else if d == 4 {
        '4'
    } else if d == 5 {
        '5'
    } else if d == 6 {
        '6'
    } else if d == 7 {
        '7'
    } else if d == 8 {
        '8'
    } else {
        '9'
    }
}

/// The decimal spelling of a non-negative number.
pub open spec fn spec_nat_text(n: int) -> Seq<char>
    decreases n,
{
    if n < 10 {
        seq![spec_digit_char(n)]
    } else {
        spec_nat_text(n / 10).push(spec_digit_char(n % 10))
    }
}

/// The decimal spelling of a signed number.
pub open spec fn spec_int_text(i: int) -> Seq<char> {
    if i >= 0 {
        spec_nat_text(i)
    } else {
        seq!['-'] + spec_nat_text(-i)
    }
}

fn digit_char(d: u64) -> (c: char)
    requires
        d < 10,
    ensures
        c == spec_digit_char(d as int),
{
    if d == 0 {
        '0'
    } else if d == 1 {
        '1'
    } else if d == 2 {
        '2'
    } else if d == 3 {
        '3'
    } else if d == 4 {
        '4'
    } else if d == 5 {
        '5'
    } else if d == 6 {
        '6'
    } else if d == 7 {
        '7'
    } else if d == 8 {
        '8'
    } else {
        '9'
    }
}

/// The decimal digits of a non-negative number, most significant first.
fn nat_text_chars(n: u64) -> (r: Vec<char>)
    ensures
        r@ == spec_nat_text(n as int),
{
    let mut digits: Vec<char> = Vec::new();
    digits.push(digit_char(n % 10));
    let mut m: u64 = n / 10;
    proof {
        if m > 0 {
            assert(digits@ =~= seq![spec_digit_char(n as int % 10)]);
            assert(spec_nat_text(n as int) =~= spec_nat_text(m as int) + digits@);
        } else {
            assert(digits@ =~= spec_nat_text(n as int));
        }
    }
    while m > 0
        invariant
            if m > 0 {
                spec_nat_text(n as int) == spec_nat_text(m as int) + digits@
            } else {
                spec_nat_text(n as int) == digits@
            },
        decreases m,
    {
        let ghost prevm = m as int;
        let ghost prevd = digits@;
        digits.insert(0, digit_char(m % 10));
        m = m / 10;
        proof {
            assert(digits@ =~= seq![spec_digit_char(prevm % 10)] + prevd);
            if m > 0 {
                assert(spec_nat_text(prevm) =~= spec_nat_text(m as int) + seq![
                    spec_digit_char(prevm % 10),
                ]);
                assert(spec_nat_text(n as int) =~= spec_nat_text(m as int) + digits@);
            } else {
                assert(spec_nat_text(prevm) =~= seq![spec_digit_char(prevm % 10)]);
                assert(spec_nat_text(n as int) =~= digits@);
            }
        }
    }
    digits
}

/// The decimal spelling of a signed number, as characters.
fn int_text_chars(i: i64) -> (r: Vec<char>)
    ensures
        r@ == spec_int_text(i as int),
{
    if i >= 0 {
        nat_text_chars(i as u64)
    } else {
        let magnitude: u64 = ((-(i + 1)) as u64) + 1;
        proof {
            assert(magnitude as int == -(i as int));
        }
        let mut digits = nat_text_chars(magnitude);
        let mut out: Vec<char> = Vec::new();
        out.push('-');
        out.append(&mut digits);
        proof {
            assert(out@ =~= seq!['-'] + spec_nat_text(magnitude as int));
        }
        out
    }
}

/// The display text of a token: its kind and its payload.
pub open spec fn spec_token_text(t: TokenV) -> Seq<char> {
    match t {
        TokenV::Keyword(k) => "Keyword "@ + keywords::spec_keyword_text(k),
        TokenV::Identifier(s) => "Identifier "@ + s,
        TokenV::Integer(i) => "Integer "@ + spec_int_text(i as int),
        TokenV::Float(s) => "Float "@ + s,
        TokenV::StringLiteral(s) => "String literal "@ + s,
        TokenV::Grammar(g) => "Grammar marker "@ + grammar::spec_grammar_text(g),
        TokenV::Operator(o) => "Operator "@ + operators::spec_operator_text(o),
    }
}

/// The display text of a token, for diagnostics.
pub fn token_text(t: &Token) -> (r: String)
    ensures
        r@ == spec_token_text(t@),
{
    match t {
        Token::Keyword(k) => {
            let mut s = String::from_str("Keyword ");
            s.append(keywords::keyword_text(k));
            s
        },
        Token::Identifier(id) => {
            let mut s = String::from_str("Identifier ");
            s.append(id.as_str());
            s
        },
        Token::Integer(i) => {
            let digits = int_text_chars(*i);
            let mut s = String::from_str("Integer ");
            let tail = chars::string_from_chars(digits.as_slice());
            s.append(tail.as_str());
            s
        },
        Token::Float(f) => {
            let mut s = String::from_str("Float ");
            s.append(f.as_str());
            s
        },
        Token::StringLiteral(lit) => {
            let mut s = String::from_str("String literal ");
            s.append(lit.as_str());
            s
        },
        Token::Grammar(g) => {
            let mut s = String::from_str("Grammar marker ");
            s.append(grammar::grammar_text(g));
            s
        },
        Token::Operator(o) => {
            let mut s = String::from_str("Operator ");
            s.append(operators::operator_text(o));
            s
        },
    }
}

} // verus!
