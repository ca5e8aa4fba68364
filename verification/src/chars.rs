//! Character classification for the scanner, and conversions between
//! strings and character sequences.
//!
//! The scanner's own character sets (whitespace terminators, punctuation,
//! operator-leading characters, quotes, decimal digits) are closed sets
//! stated directly. Unicode letter and whitespace classification comes
//! from std, behind trusted wrappers whose contracts pin the ASCII range
//! down exactly and give the rest a name.

use vstd::prelude::*;
use vstd::string::StrSliceExecFns;

verus! {

/// Whether a character beyond ASCII has the Unicode `Alphabetic`
/// property, as decided by `char::is_alphabetic`.
pub uninterp spec fn is_alpha_ext(c: char) -> bool;

/// Whether a character beyond ASCII is alphanumeric, as decided by
/// `char::is_alphanumeric`.
pub uninterp spec fn is_alnum_ext(c: char) -> bool;

/// Whether a character beyond ASCII has the Unicode `White_Space`
/// property, as decided by `char::is_whitespace`.
pub uninterp spec fn is_space_ext(c: char) -> bool;

/// Whether `c` has the Unicode `Alphabetic` property: within ASCII,
/// exactly the letters.
pub open spec fn is_alpha_char(c: char) -> bool {
    if (c as u32) < 128 {
        65 <= c as u32 <= 90 || 97 <= c as u32 <= 122
    } else {
        is_alpha_ext(c)
    }
}

/// Whether `c` is alphanumeric, `Alphabetic` or a Unicode number:
/// within ASCII, exactly the letters and the digits.
pub open spec fn is_alnum_char(c: char) -> bool {
    if (c as u32) < 128 {
        48 <= c as u32 <= 57 || 65 <= c as u32 <= 90 || 97 <= c as u32 <= 122
    } else {
        is_alnum_ext(c)
    }
}

/// Whether `c` has the Unicode `White_Space` property: within ASCII,
/// exactly tab through carriage return and the space character.
pub open spec fn is_space_char(c: char) -> bool {
    if (c as u32) < 128 {
        9 <= c as u32 <= 13 || c as u32 == 32
    } else {
        is_space_ext(c)
    }
}

/// Relies on char::is_alphabetic: the Unicode `Alphabetic` property,
/// which within ASCII holds exactly of the letters.
#[verifier::external_body]
pub fn char_alphabetic(c: char) -> (r: bool)
    ensures
        r == is_alpha_char(c),
        (c as u32) >= 128 ==> r == is_alpha_ext(c),
{
    c.is_alphabetic()
}

/// Relies on char::is_alphanumeric: `Alphabetic` or a Unicode number,
/// which within ASCII holds exactly of the letters and the digits.
#[verifier::external_body]
pub fn char_alphanumeric(c: char) -> (r: bool)
    ensures
        r == is_alnum_char(c),
        (c as u32) >= 128 ==> r == is_alnum_ext(c),
{
    c.is_alphanumeric()
}

/// Relies on char::is_whitespace: the Unicode `White_Space` property,
/// which within ASCII holds exactly of tab through carriage return and
/// the space character.
#[verifier::external_body]
pub fn char_whitespace(c: char) -> (r: bool)
    ensures
        r == is_space_char(c),
        (c as u32) >= 128 ==> r == is_space_ext(c),
{
    c.is_whitespace()
}

/// Whether `c` is one of the scanner's whitespace terminators.
pub open spec fn spec_is_ws_terminator(c: char) -> bool {
    c == ' ' || c == '\t' || c == '\n'
}

pub fn is_ws_terminator(c: char) -> (r: bool)
    ensures
        r == spec_is_ws_terminator(c),
{
    c == ' ' || c == '\t' || c == '\n'
}

/// Whether `c` is one of the scanner's punctuation terminators.
pub open spec fn spec_is_punctuation(c: char) -> bool {
    c == ',' || c == ';' || c == '(' || c == ')' || c == '*'
}

pub fn is_punctuation(c: char) -> (r: bool)
    ensures
        r == spec_is_punctuation(c),
{
    c == ',' || c == ';' || c == '(' || c == ')' || c == '*'
}

/// Whether `c` can start or extend an operator word.
pub open spec fn spec_is_operator_char(c: char) -> bool {
    c == '=' || c == '!' || c == '<' || c == '>'
}

pub fn is_operator_char(c: char) -> (r: bool)
    ensures
        r == spec_is_operator_char(c),
{
    c == '=' || c == '!' || c == '<' || c == '>'
}

/// Whether `c` opens (and later closes) a quoted string.
pub open spec fn spec_is_quote(c: char) -> bool {
    c == '"' || c == '\''
}

pub fn is_quote(c: char) -> (r: bool)
    ensures
        r == spec_is_quote(c),
{
    c == '"' || c == '\''
}

/// Whether `c` is a decimal digit.
pub open spec fn spec_is_digit(c: char) -> bool {
    48 <= c as u32 <= 57
}

pub fn is_digit_char(c: char) -> (r: bool)
    ensures
        r == spec_is_digit(c),
{
    let u = c as u32;
    48 <= u && u <= 57
}

/// The numeric value of a decimal digit character.
pub open spec fn spec_digit_val(c: char) -> int {
    c as u32 - 48
}

/// Case-insensitive match of one character against an upper-case
/// reference character: equal as they stand, or `c` is the ASCII
/// lower-case form of `u`.
pub open spec fn spec_ci_eq(c: char, u: char) -> bool {
    if 97 <= c as u32 <= 122 {
        c as u32 == u as u32 + 32
    } else {
        c == u
    }
}

pub fn ci_eq(c: char, u: char) -> (r: bool)
    ensures
        r == spec_ci_eq(c, u),
{
    let cu = c as u32;
    if 97 <= cu && cu <= 122 {
        cu == (u as u32) + 32
    } else {
        c == u
    }
}

/// The characters of a string, in order.
pub fn chars_of(s: &str) -> (r: Vec<char>)
    ensures
        r@ == s@,
{
    let n = s.unicode_len();
    let mut v: Vec<char> = Vec::new();
    let mut i: usize = 0;
    while i < n
        invariant
            n == s@.len(),
            0 <= i <= n,
            v@ == s@.subrange(0, i as int),
        decreases n - i,
    {
        v.push(s.get_char(i));
        proof {
            assert(v@ =~= s@.subrange(0, i + 1 as int));
        }
        i += 1;
    }
    proof {
        assert(v@ =~= s@);
    }
    v
}

/// Relies on str's FromIterator for char: collecting characters yields
/// the string whose characters they are, in order.
#[verifier::external_body]
pub fn string_from_chars(w: &[char]) -> (r: String)
    ensures
        r@ == w@,
{
    w.iter().collect()
}

/// Copy a sub-slice into a fresh vector.
pub fn slice_copy(w: &[char], from: usize, to: usize) -> (r: Vec<char>)
    requires
        0 <= from <= to <= w@.len(),
    ensures
        r@ == w@.subrange(from as int, to as int),
{
    let mut v: Vec<char> = Vec::new();
    let mut i: usize = from;
    while i < to
        invariant
            from <= i <= to <= w@.len(),
            v@ == w@.subrange(from as int, i as int),
        decreases to - i,
    {
        v.push(w[i]);
        proof {
            assert(v@ =~= w@.subrange(from as int, i + 1 as int));
        }
        i += 1;
    }
    v
}

/// Whether the word holds the given character.
pub fn word_contains(w: &Vec<char>, c: char) -> (r: bool)
    ensures
        r == w@.contains(c),
{
    let n = w.len();
    let mut i: usize = 0;
    while i < n
        invariant
            n == w@.len(),
            0 <= i <= n,
            forall|j: int| 0 <= j < i ==> w@[j] != c,
        decreases n - i,
    {
        if w[i] == c {
            return true;
        }
        i += 1;
    }
    false
}

/// The sequence with its leading whitespace removed.
pub open spec fn spec_trim_front(s: Seq<char>) -> Seq<char>
    decreases s.len(),
{
    if s.len() > 0 && is_space_char(s[0]) {
        spec_trim_front(s.drop_first())
    } else {
        s
    }
}

/// The sequence with its trailing whitespace removed.
pub open spec fn spec_trim_back(s: Seq<char>) -> Seq<char>
    decreases s.len(),
{
    if s.len() > 0 && is_space_char(s.last()) {
        spec_trim_back(s.drop_last())
    } else {
        s
    }
}

/// The sequence with whitespace removed from both ends, as `str::trim`
/// removes it.
pub open spec fn spec_trim(s: Seq<char>) -> Seq<char> {
    spec_trim_back(spec_trim_front(s))
}

/// Remove leading and trailing whitespace characters.
pub fn trim_chars(v: &[char]) -> (r: Vec<char>)
    ensures
        r@ == spec_trim(v@),
{
    let n = v.len();
    let mut a: usize = 0;
    proof {
        assert(v@.subrange(0, n as int) =~= v@);
    }
    while a < n && char_whitespace(v[a])
        invariant
            n == v@.len(),
            0 <= a <= n,
            spec_trim_front(v@) == spec_trim_front(v@.subrange(a as int, n as int)),
        decreases n - a,
    {
        proof {
            let cur = v@.subrange(a as int, n as int);
            assert(cur[0] == v@[a as int]);
            assert(cur.drop_first() =~= v@.subrange(a + 1 as int, n as int));
        }
        a += 1;
    }
    proof {
        let cur = v@.subrange(a as int, n as int);
        if a < n {
            assert(!is_space_char(cur[0]));
        }
        assert(spec_trim_front(v@) == cur);
    }
    let mut b: usize = n;
    while b > a && char_whitespace(v[b - 1])
        invariant
            0 <= a <= b <= n == v@.len(),
            spec_trim_front(v@) == v@.subrange(a as int, n as int),
            spec_trim_back(v@.subrange(a as int, n as int)) == spec_trim_back(
                v@.subrange(a as int, b as int),
            ),
        decreases b,
    {
        proof {
            let cur = v@.subrange(a as int, b as int);
            assert(cur.last() == v@[b - 1 as int]);
            assert(cur.drop_last() =~= v@.subrange(a as int, b - 1 as int));
        }
        b -= 1;
    }
    proof {
        let cur = v@.subrange(a as int, b as int);
        if b > a {
            assert(!is_space_char(cur.last()));
        }
        assert(spec_trim(v@) == cur);
    }
    slice_copy(v, a, b)
}

} // verus!
