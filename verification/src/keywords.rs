//! Reserved words of the query language. Recognition is case-insensitive
//! on the raw word; a word that spells a keyword is always classified as
//! that keyword, never as an identifier.

use vstd::prelude::*;
use vstd::string::StrSliceExecFns;
use crate::chars;

verus! {

#[derive(Debug, Clone, Copy, PartialEq, Eq, Structural)]
pub enum KeywordType {
    Select,
    From,
    Where,
    Group,
    Order,
    By,
    And,
    Or,
    Asc,
    Desc,
    Count,
    Avg,
    Min,
    Max,
    Sum,
    True,
    False,
}

/// A word matches a reserved spelling when it has the same length and each
/// of its characters is, case-insensitively, the spelling's character at
/// that position. The spellings are ASCII upper case, so a character
/// matches exactly or as the corresponding ASCII lower-case letter.
pub open spec fn spec_matches_ci(w: Seq<char>, upper: Seq<char>) -> bool {
    w.len() == upper.len() && (forall|i: int|
        0 <= i < w.len() ==> chars::spec_ci_eq(#[trigger] w[i], upper[i]))
}

/// The keyword a word spells, if any, by case-insensitive match against
/// the closed set of reserved spellings.
pub open spec fn spec_keyword_of(w: Seq<char>) -> Option<KeywordType> {
    if spec_matches_ci(w, "SELECT"@) {
        Some(KeywordType::Select)
    } else if spec_matches_ci(w, "FROM"@) {
        Some(KeywordType::From)
    } else if spec_matches_ci(w, "WHERE"@) {
        Some(KeywordType::Where)
    } else if spec_matches_ci(w, "ORDER"@) {
        Some(KeywordType::Order)
    } else if spec_matches_ci(w, "GROUP"@) {
        Some(KeywordType::Group)
    } else if spec_matches_ci(w, "BY"@) {
        Some(KeywordType::By)
    } else if spec_matches_ci(w, "AND"@) {
        Some(KeywordType::And)
    } else if spec_matches_ci(w, "OR"@) {
        Some(KeywordType::Or)
    } else if spec_matches_ci(w, "ASC"@) {
        Some(KeywordType::Asc)
    } else if spec_matches_ci(w, "DESC"@) {
        Some(KeywordType::Desc)
    } else if spec_matches_ci(w, "COUNT"@) {
        Some(KeywordType::Count)
    } else if spec_matches_ci(w, "AVG"@) {
        Some(KeywordType::Avg)
    } else if spec_matches_ci(w, "MIN"@) {
        Some(KeywordType::Min)
    } else if spec_matches_ci(w, "MAX"@) {
        Some(KeywordType::Max)
    } else if spec_matches_ci(w, "SUM"@) {
        Some(KeywordType::Sum)
    } else if spec_matches_ci(w, "TRUE"@) {
        Some(KeywordType::True)
    } else if spec_matches_ci(w, "FALSE"@) {
        Some(KeywordType::False)
    } else {
        None
    }
}

/// The reserved spelling of a keyword, in upper case.
pub open spec fn spec_keyword_text(k: KeywordType) -> Seq<char> {
    match k {
        KeywordType::Select => "SELECT"@,
        KeywordType::From => "FROM"@,
        KeywordType::Where => "WHERE"@,
        KeywordType::Group => "GROUP"@,
        KeywordType::Order => "ORDER"@,
        KeywordType::By => "BY"@,
        KeywordType::And => "AND"@,
        KeywordType::Or => "OR"@,
        KeywordType::Asc => "ASC"@,
        KeywordType::Desc => "DESC"@,
        KeywordType::Count => "COUNT"@,
        KeywordType::Avg => "AVG"@,
        KeywordType::Min => "MIN"@,
        KeywordType::Max => "MAX"@,
        KeywordType::Sum => "SUM"@,
        KeywordType::True => "TRUE"@,
        KeywordType::False => "FALSE"@,
    }
}

/// Case-insensitive match of a word against one reserved spelling.
pub fn matches_ci(w: &[char], upper: &str) -> (r: bool)
    ensures
        r == spec_matches_ci(w@, upper@),
{
    let n = upper.unicode_len();
    if w.len() != n {
        return false;
    }
    let mut i: usize = 0;
    while i < n
        invariant
            n == upper@.len(),
            w@.len() == n,
            0 <= i <= n,
            forall|j: int| 0 <= j < i ==> chars::spec_ci_eq(#[trigger] w@[j], upper@[j]),
        decreases n - i,
    {
        if !chars::ci_eq(w[i], upper.get_char(i)) {
            return false;
        }
        i += 1;
    }
    true
}

pub fn is_keyword(word: &str) -> (r: Option<KeywordType>)
    ensures
        r == spec_keyword_of(word@),
{
    let w = chars::chars_of(word);
    keyword_of_chars(w.as_slice())
}

/// The keyword a word, given as its characters, spells, if any.
pub fn keyword_of_chars(w: &[char]) -> (r: Option<KeywordType>)
    ensures
        r == spec_keyword_of(w@),
{
    if matches_ci(w, "SELECT") {
        Some(KeywordType::Select)
    } else if matches_ci(w, "FROM") {
        Some(KeywordType::From)
    } else if matches_ci(w, "WHERE") {
        Some(KeywordType::Where)
    } else if matches_ci(w, "ORDER") {
        Some(KeywordType::Order)
    } else if matches_ci(w, "GROUP") {
        Some(KeywordType::Group)
    } else if matches_ci(w, "BY") {
        Some(KeywordType::By)
    } else if matches_ci(w, "AND") {
        Some(KeywordType::And)
    } else if matches_ci(w, "OR") {
        Some(KeywordType::Or)
    } else if matches_ci(w, "ASC") {
        Some(KeywordType::Asc)
    } else if matches_ci(w, "DESC") {
        Some(KeywordType::Desc)
    } else if matches_ci(w, "COUNT") {
        Some(KeywordType::Count)
    } else if matches_ci(w, "AVG") {
        Some(KeywordType::Avg)
    } else if matches_ci(w, "MIN") {
        Some(KeywordType::Min)
    } else if matches_ci(w, "MAX") {
        Some(KeywordType::Max)
    } else if matches_ci(w, "SUM") {
        Some(KeywordType::Sum)
    } else if matches_ci(w, "TRUE") {
        Some(KeywordType::True)
    } else if matches_ci(w, "FALSE") {
        Some(KeywordType::False)
    } else {
        None
    }
}

/// The reserved spelling of a keyword, for diagnostics.
pub fn keyword_text(k: &KeywordType) -> (r: &'static str)
    ensures
        r@ == spec_keyword_text(*k),
{
    match k {
        KeywordType::Select => "SELECT",
        KeywordType::From => "FROM",
        KeywordType::Where => "WHERE",
        KeywordType::Group => "GROUP",
        KeywordType::Order => "ORDER",
        KeywordType::By => "BY",
        KeywordType::And => "AND",
        KeywordType::Or => "OR",
        KeywordType::Asc => "ASC",
        KeywordType::Desc => "DESC",
        KeywordType::Count => "COUNT",
        KeywordType::Avg => "AVG",
        KeywordType::Min => "MIN",
        KeywordType::Max => "MAX",
        KeywordType::Sum => "SUM",
        KeywordType::True => "TRUE",
        KeywordType::False => "FALSE",
    }
}

} // verus!
