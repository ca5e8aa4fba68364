//! Operator spellings of the query language: comparison, logical and
//! arithmetic forms.

use vstd::prelude::*;
use crate::chars;

verus! {

#[derive(Debug, Clone, Copy, PartialEq, Eq, Structural)]
pub enum OperatorType {
    Equals,
    GreaterThan,
    SmallerThan,
    GreaterThanOrEqual,
    SmallerThanOrEqual,
    NotEquals,
    And,
    Or,
    Add,
    Subtract,
    Divide,
    Multiply,
}

/// The operator a word spells, if any. The symbolic spellings contain no
/// letters, so a case-insensitive match is an exact one.
pub open spec fn spec_operator_of(w: Seq<char>) -> Option<OperatorType> {
    if w.len() == 1 {
        if w[0] == '=' {
            Some(OperatorType::Equals)
        } else if w[0] == '>' {
            Some(OperatorType::GreaterThan)
        } else if w[0] == '<' {
            Some(OperatorType::SmallerThan)
        } else if w[0] == '+' {
            Some(OperatorType::Add)
        } else if w[0] == '-' {
            Some(OperatorType::Subtract)
        } else if w[0] == '/' {
            Some(OperatorType::Divide)
        } else if w[0] == '*' {
            Some(OperatorType::Multiply)
        } else {
            None
        }
    } else if w.len() == 2 {
        if w[0] == '>' && w[1] == '=' {
            Some(OperatorType::GreaterThanOrEqual)
        } else if w[0] == '<' && w[1] == '=' {
            Some(OperatorType::SmallerThanOrEqual)
        } else if w[0] == '<' && w[1] == '>' {
            Some(OperatorType::NotEquals)
        } else if w[0] == '&' && w[1] == '&' {
            Some(OperatorType::And)
        } else if w[0] == '|' && w[1] == '|' {
            Some(OperatorType::Or)
        } else {
            None
        }
    } else {
        None
    }
}

/// The display spelling of an operator, for diagnostics.
pub open spec fn spec_operator_text(o: OperatorType) -> Seq<char> {
    match o {
        OperatorType::Equals => "="@,
        OperatorType::GreaterThan => ">"@,
        OperatorType::SmallerThan => "<"@,
        OperatorType::GreaterThanOrEqual => ">="@,
        OperatorType::SmallerThanOrEqual => "<="@,
        OperatorType::NotEquals => "!="@,
        OperatorType::And => "AND"@,
        OperatorType::Or => "OR"@,
        OperatorType::Add => "+"@,
        OperatorType::Subtract => "-"@,
        OperatorType::Divide => "/"@,
        OperatorType::Multiply => "*"@,
    }
}

pub fn is_operator(word: &str) -> (r: Option<OperatorType>)
    ensures
        r == spec_operator_of(word@),
{
    let w = chars::chars_of(word);
    operator_of_chars(w.as_slice())
}

/// The operator a word, given as its characters, spells, if any.
pub fn operator_of_chars(w: &[char]) -> (r: Option<OperatorType>)
    ensures
        r == spec_operator_of(w@),
{
    if w.len() == 1 {
        let c = w[0];
        if c == '=' {
            Some(OperatorType::Equals)
        } else if c == '>' {
            Some(OperatorType::GreaterThan)
        } else if c == '<' {
            Some(OperatorType::SmallerThan)
        } else if c == '+' {
            Some(OperatorType::Add)
        } else if c == '-' {
            Some(OperatorType::Subtract)
        } else if c == '/' {
            Some(OperatorType::Divide)
        } else if c == '*' {
            Some(OperatorType::Multiply)
        } else {
            None
        }
    } else if w.len() == 2 {
        let a = w[0];
        let b = w[1];
        if a == '>' && b == '=' {
            Some(OperatorType::GreaterThanOrEqual)
        } else if a == '<' && b == '=' {
            Some(OperatorType::SmallerThanOrEqual)
        } else if a == '<' && b == '>' {
            Some(OperatorType::NotEquals)
        } else if a == '&' && b == '&' {
            Some(OperatorType::And)
        } else if a == '|' && b == '|' {
            Some(OperatorType::Or)
        } else {
            None
        }
    } else {
        None
    }
}

/// The display spelling of an operator, for diagnostics.
pub fn operator_text(o: &OperatorType) -> (r: &'static str)
    ensures
        r@ == spec_operator_text(*o),
{
    match o {
        OperatorType::Equals => "=",
        OperatorType::GreaterThan => ">",
        OperatorType::SmallerThan => "<",
        OperatorType::GreaterThanOrEqual => ">=",
        OperatorType::SmallerThanOrEqual => "<=",
        OperatorType::NotEquals => "!=",
        OperatorType::And => "AND",
        OperatorType::Or => "OR",
        OperatorType::Add => "+",
        OperatorType::Subtract => "-",
        OperatorType::Divide => "/",
        OperatorType::Multiply => "*",
    }
}

} // verus!
