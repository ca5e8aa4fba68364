//! The tokenizer: a character-level finite-state scanner that splits
//! query text into words, followed by classification of each word as a
//! token.
//!
//! The scan is specified as a fold of [`spec_scan_step`] over the
//! character sequence: one character is consumed per transition, with no
//! backtracking. The executable scanner is one transition function per
//! state, dispatched from [`state_based_tokenize`].

use vstd::prelude::*;
use crate::chars;
use crate::errors::LexerError;
use crate::tokens::{self, Token, TokenV};

verus! {

/// The scanner's state: between words, or inside an identifier, a
/// number, a quoted string (remembering which quote closes it), or an
/// operator.
#[derive(Debug, Clone, Copy, PartialEq, Eq, Structural)]
pub enum LexerState {
    Start,
    InIdentifier,
    InNumber,
    InString(char),
    InOperator,
}

/// The whole state of a scan: the scanner state, the word being built,
/// and the completed words, oldest first.
#[verifier::ext_equal]
pub struct ScanState {
    pub state: LexerState,
    pub word: Seq<char>,
    pub words: Seq<Seq<char>>,
}

/// The state a scan starts in: between words, nothing built.
pub open spec fn spec_scan_init() -> ScanState {
    ScanState { state: LexerState::Start, word: Seq::empty(), words: Seq::empty() }
}

/// One scanner transition: consume character `c` in state `acc`, or fail
/// with a lexical-error message.
///
/// In the start state whitespace is discarded; a letter or underscore, a
/// digit, a quote or an operator-leading character begins a word;
/// punctuation is emitted at once as a word of its own. Inside a word
/// the character either extends it or terminates it; a terminating
/// punctuation character is emitted as its own word, and a letter or
/// digit that terminates an operator begins the next word itself. A
/// quoted string absorbs every character up to and including the closing
/// quote, which stays embedded in the word. A second decimal point in
/// one number is an error.
pub open spec fn spec_scan_step(acc: ScanState, c: char) -> Result<ScanState, Seq<char>> {
    match acc.state {
        LexerState::Start => {
            if chars::spec_is_ws_terminator(c) {
                Ok(acc)
            } else if chars::is_alpha_char(c) || c == '_' {
                Ok(ScanState { state: LexerState::InIdentifier, word: acc.word.push(c), ..acc })
            } else if chars::spec_is_digit(c) {
                Ok(ScanState { state: LexerState::InNumber, word: acc.word.push(c), ..acc })
            } else if chars::spec_is_quote(c) {
                Ok(ScanState { state: LexerState::InString(c), word: acc.word.push(c), ..acc })
            } else if chars::spec_is_operator_char(c) {
                Ok(ScanState { state: LexerState::InOperator, word: acc.word.push(c), ..acc })
            } else if chars::spec_is_punctuation(c) {
                Ok(ScanState { words: acc.words.push(seq![c]), ..acc })
            } else {
                Err("Unexpected character"@)
            }
        },
        LexerState::InIdentifier => {
            if chars::is_alnum_char(c) || c == '_' {
                Ok(ScanState { word: acc.word.push(c), ..acc })
            } else if chars::spec_is_ws_terminator(c) {
                Ok(spec_finish_word(acc))
            } else if chars::spec_is_punctuation(c) {
                Ok(spec_finish_word_punct(acc, c))
            } else {
                Err("Unexpected character"@)
            }
        },
        LexerState::InNumber => {
            if chars::spec_is_digit(c) {
                Ok(ScanState { word: acc.word.push(c), ..acc })
            } else if c == '.' {
                if acc.word.contains('.') {
                    Err("More than one decimals in number"@)
                } else {
                    Ok(ScanState { word: acc.word.push(c), ..acc })
                }
            } else if chars::spec_is_ws_terminator(c) {
                Ok(spec_finish_word(acc))
            } else if chars::spec_is_punctuation(c) {
                Ok(spec_finish_word_punct(acc, c))
            } else {
                Err("Unexpected character"@)
            }
        },
        LexerState::InString(q) => {
            if c != q {
                Ok(ScanState { word: acc.word.push(c), ..acc })
            } else {
                Ok(
                    ScanState {
                        state: LexerState::Start,
                        word: Seq::empty(),
                        words: acc.words.push(acc.word.push(c)),
                    },
                )
            }
        },
        LexerState::InOperator => {
            if chars::spec_is_operator_char(c) {
                Ok(ScanState { word: acc.word.push(c), ..acc })
            } else if chars::spec_is_ws_terminator(c) {
                Ok(spec_finish_word(acc))
            } else if chars::spec_is_punctuation(c) {
                Ok(spec_finish_word_punct(acc, c))
            } else if chars::is_alnum_char(c) {
                // The letter or digit both terminates the operator and
                // begins the next word, so that an operator may be
                // followed by an identifier or a number without a space.
                Ok(
                    ScanState {
                        state: if chars::spec_is_digit(c) {
                            LexerState::InNumber
                        } else {
                            LexerState::InIdentifier
                        },
                        word: seq![c],
                        words: acc.words.push(acc.word),
                    },
                )
            } else {
                Err("Unexpected character in operator"@)
            }
        },
    }
}

/// Finish the word being built on a whitespace terminator.
pub open spec fn spec_finish_word(acc: ScanState) -> ScanState {
    ScanState { state: LexerState::Start, word: Seq::empty(), words: acc.words.push(acc.word) }
}

/// Finish the word being built on a punctuation terminator, which is
/// emitted as a word of its own.
pub open spec fn spec_finish_word_punct(acc: ScanState, c: char) -> ScanState {
    ScanState {
        state: LexerState::Start,
        word: Seq::empty(),
        words: acc.words.push(acc.word).push(seq![c]),
    }
}

/// Fold of the scanner transition over a character sequence.
pub open spec fn spec_scan_from(acc: ScanState, s: Seq<char>) -> Result<ScanState, Seq<char>>
    decreases s.len(),
{
    if s.len() == 0 {
        Ok(acc)
    } else {
        match spec_scan_step(acc, s[0]) {
            Ok(acc2) => spec_scan_from(acc2, s.drop_first()),
            Err(m) => Err(m),
        }
    }
}

/// The words of a character sequence: scan every character from the
/// initial state, then flush the word still being built, if any.
pub open spec fn spec_words_of(s: Seq<char>) -> Result<Seq<Seq<char>>, Seq<char>> {
    match spec_scan_from(spec_scan_init(), s) {
        Ok(acc) => Ok(
            if acc.word.len() > 0 {
                acc.words.push(acc.word)
            } else {
                acc.words
            },
        ),
        Err(m) => Err(m),
    }
}

/// The tokens of query text: trim it, scan it into words, and classify
/// each word, or fail with the scan's lexical-error message.
pub open spec fn spec_tokens(s: Seq<char>) -> Result<Seq<TokenV>, Seq<char>> {
    match spec_words_of(chars::spec_trim(s)) {
        Ok(ws) => Ok(Seq::new(ws.len(), |i: int| tokens::spec_classify(ws[i]))),
        Err(m) => Err(m),
    }
}

/// Start-state transition. Returns the punctuation character to emit as
/// a word of its own, if the character is punctuation.
pub fn handle_start_state(ch: char, current_word: &mut Vec<char>, state: &mut LexerState) -> (r:
    Result<Option<char>, LexerError>)
    requires
        *old(state) == LexerState::Start,
    ensures
        match r {
            Ok(Some(p)) => p == ch && chars::spec_is_punctuation(ch)
                && !chars::spec_is_ws_terminator(ch) && !chars::is_alpha_char(ch) && ch != '_'
                && !chars::spec_is_digit(ch) && !chars::spec_is_quote(ch)
                && !chars::spec_is_operator_char(ch) && *final(state) == *old(state)
                && *final(current_word) == *old(current_word),
            Ok(None) => if chars::spec_is_ws_terminator(ch) {
                *final(state) == *old(state) && *final(current_word) == *old(current_word)
            } else {
                &&& final(current_word)@ == old(current_word)@.push(ch)
                &&& if chars::is_alpha_char(ch) || ch == '_' {
                    *final(state) == LexerState::InIdentifier
                } else if chars::spec_is_digit(ch) {
                    *final(state) == LexerState::InNumber
                } else if chars::spec_is_quote(ch) {
                    *final(state) == LexerState::InString(ch)
                } else {
                    chars::spec_is_operator_char(ch) && *final(state) == LexerState::InOperator
                }
            },
            Err(e) => !chars::spec_is_ws_terminator(ch) && !chars::is_alpha_char(ch) && ch != '_'
                && !chars::spec_is_digit(ch) && !chars::spec_is_quote(ch)
                && !chars::spec_is_operator_char(ch) && !chars::spec_is_punctuation(ch)
                && e.message@ == "Unexpected character"@ && *final(state) == *old(state)
                && *final(current_word) == *old(current_word),
        },
{
    if chars::is_ws_terminator(ch) {
        Ok(None)
    } else if chars::char_alphabetic(ch) || ch == '_' {
        *state = LexerState::InIdentifier;
        current_word.push(ch);
        Ok(None)
    } else if chars::is_digit_char(ch) {
        *state = LexerState::InNumber;
        current_word.push(ch);
        Ok(None)
    } else if chars::is_quote(ch) {
        *state = LexerState::InString(ch);
        current_word.push(ch);
        Ok(None)
    } else if chars::is_operator_char(ch) {
        *state = LexerState::InOperator;
        current_word.push(ch);
        Ok(None)
    } else if chars::is_punctuation(ch) {
        Ok(Some(ch))
    } else {
        Err(LexerError { message: String::from_str("Unexpected character") })
    }
}

/// Identifier-state transition. Returns the terminator when the word is
/// finished: whitespace, or punctuation to emit as its own word.
pub fn handle_in_identifier_state(
    ch: char,
    current_word: &mut Vec<char>,
    state: &mut LexerState,
) -> (r: Result<Option<char>, LexerError>)
    requires
        *old(state) == LexerState::InIdentifier,
    ensures
        match r {
            Ok(Some(t)) => t == ch && (chars::spec_is_ws_terminator(ch)
                || chars::spec_is_punctuation(ch)) && !chars::is_alnum_char(ch) && ch != '_'
                && *final(state) == LexerState::Start && *final(current_word) == *old(current_word),
            Ok(None) => (chars::is_alnum_char(ch) || ch == '_')
                && final(current_word)@ == old(current_word)@.push(ch)
                && *final(state) == *old(state),
            Err(e) => !(chars::is_alnum_char(ch) || ch == '_') && !chars::spec_is_ws_terminator(ch)
                && !chars::spec_is_punctuation(ch) && e.message@ == "Unexpected character"@
                && *final(state) == *old(state) && *final(current_word) == *old(current_word),
        },
{
    if chars::char_alphanumeric(ch) || ch == '_' {
        current_word.push(ch);
        Ok(None)
    } else if chars::is_ws_terminator(ch) || chars::is_punctuation(ch) {
        *state = LexerState::Start;
        Ok(Some(ch))
    } else {
        Err(LexerError { message: String::from_str("Unexpected character") })
    }
}

/// Number-state transition. A single decimal point may extend the word;
/// a second one is an error. Returns the terminator when the word is
/// finished.
pub fn handle_in_number_state(ch: char, current_word: &mut Vec<char>, state: &mut LexerState) -> (r:
    Result<Option<char>, LexerError>)
    requires
        *old(state) == LexerState::InNumber,
    ensures
        match r {
            Ok(Some(t)) => t == ch && (chars::spec_is_ws_terminator(ch)
                || chars::spec_is_punctuation(ch)) && !chars::spec_is_digit(ch) && ch != '.'
                && *final(state) == LexerState::Start && *final(current_word) == *old(current_word),
            Ok(None) => (chars::spec_is_digit(ch) || (ch == '.'
                && !old(current_word)@.contains('.')))
                && final(current_word)@ == old(current_word)@.push(ch)
                && *final(state) == *old(state),
            Err(e) => *final(state) == *old(state) && *final(current_word) == *old(current_word) && (
            if ch == '.' {
                old(current_word)@.contains('.') && e.message@
                    == "More than one decimals in number"@
            } else {
                !chars::spec_is_digit(ch) && !chars::spec_is_ws_terminator(ch)
                    && !chars::spec_is_punctuation(ch) && e.message@ == "Unexpected character"@
            }),
        },
{
    if chars::is_digit_char(ch) {
        current_word.push(ch);
        Ok(None)
    } else if ch == '.' {
        if chars::word_contains(current_word, '.') {
            Err(LexerError { message: String::from_str("More than one decimals in number") })
        } else {
            current_word.push(ch);
            Ok(None)
        }
    } else if chars::is_ws_terminator(ch) || chars::is_punctuation(ch) {
        *state = LexerState::Start;
        Ok(Some(ch))
    } else {
        Err(LexerError { message: String::from_str("Unexpected character") })
    }
}

/// String-state transition. Every character is appended, the closing
/// quote included; the result says whether the quote closed the word.
pub fn handle_in_string_state(ch: char, current_word: &mut Vec<char>, state: &mut LexerState) -> (r:
    bool)
    requires
        *old(state) matches LexerState::InString(_),
    ensures
        ({
            let q = old(state)->InString_0;
            &&& final(current_word)@ == old(current_word)@.push(ch)
            &&& r == (ch == q)
            &&& *final(state) == if ch == q {
                LexerState::Start
            } else {
                *old(state)
            }
        }),
{
    let q = match state {
        LexerState::InString(q) => *q,
        _ => {
            proof {
                assert(false);
            }
            ' '
        },
    };
    current_word.push(ch);
    if ch == q {
        *state = LexerState::Start;
        true
    } else {
        false
    }
}

/// Operator-state transition. Returns the terminator when the word is
/// finished: whitespace, punctuation to emit as its own word, or a
/// letter or digit that begins the next word itself (the handler moves
/// to the matching state; the caller seeds the new word).
pub fn handle_in_operator_state(
    ch: char,
    current_word: &mut Vec<char>,
    state: &mut LexerState,
) -> (r: Result<Option<char>, LexerError>)
    requires
        *old(state) == LexerState::InOperator,
    ensures
        match r {
            Ok(Some(t)) => t == ch && !chars::spec_is_operator_char(ch) && *final(current_word)
                == *old(current_word) && (if chars::spec_is_ws_terminator(ch)
                || chars::spec_is_punctuation(ch) {
                *final(state) == LexerState::Start
            } else {
                chars::is_alnum_char(ch) && *final(state) == (if chars::spec_is_digit(ch) {
                    LexerState::InNumber
                } else {
                    LexerState::InIdentifier
                })
            }),
            Ok(None) => chars::spec_is_operator_char(ch)
                && final(current_word)@ == old(current_word)@.push(ch)
                && *final(state) == *old(state),
            Err(e) => !chars::spec_is_operator_char(ch) && !chars::spec_is_ws_terminator(ch)
                && !chars::spec_is_punctuation(ch) && !chars::is_alnum_char(ch) && e.message@
                == "Unexpected character in operator"@ && *final(state) == *old(state)
                && *final(current_word) == *old(current_word),
        },
{
    if chars::is_operator_char(ch) {
        current_word.push(ch);
        Ok(None)
    } else if chars::is_ws_terminator(ch) || chars::is_punctuation(ch) {
        *state = LexerState::Start;
        Ok(Some(ch))
    } else if chars::char_alphanumeric(ch) {
        *state = if chars::is_digit_char(ch) {
            LexerState::InNumber
        } else {
            LexerState::InIdentifier
        };
        Ok(Some(ch))
    } else {
        Err(LexerError { message: String::from_str("Unexpected character in operator") })
    }
}

/// A character vector's deep view is its view.
proof fn lemma_word_deep_view(w: Vec<char>)
    ensures
        w.deep_view() == w@,
{
    assert(w.deep_view() =~= w@);
}

/// Pushing a word onto the word list pushes its view onto the list's
/// deep view.
proof fn lemma_words_push(next: Vec<Vec<char>>, prev: Vec<Vec<char>>, w: Vec<char>)
    requires
        next@ == prev@.push(w),
    ensures
        next.deep_view() == prev.deep_view().push(w@),
{
    lemma_word_deep_view(w);
    assert forall|j: int| 0 <= j < next@.len() implies next.deep_view()[j] == prev.deep_view().push(
        w@,
    )[j] by {
        if j < prev@.len() {
            assert(next@[j] == prev@[j]);
        } else {
            assert(next@[j] == w);
        }
    }
    assert(next.deep_view() =~= prev.deep_view().push(w@));
}

/// Classify each completed word as a token, in order.
fn assign_tokens(words: &Vec<Vec<char>>) -> (r: Vec<Token>)
    ensures
        r.deep_view() == Seq::new(words@.len(), |i: int| tokens::spec_classify(words@[i]@)),
{
    let n = words.len();
    let mut out: Vec<Token> = Vec::new();
    let mut i: usize = 0;
    while i < n
        invariant
            n == words@.len(),
            0 <= i <= n,
            out@.len() == i,
            out.deep_view() == Seq::new(i as nat, |j: int| tokens::spec_classify(words@[j]@)),
        decreases n - i,
    {
        let ghost prev = out;
        let t = tokens::classify_word(words[i].as_slice());
        let ghost gt = t;
        out.push(t);
        proof {
            let target = Seq::new((i + 1) as nat, |j: int| tokens::spec_classify(words@[j]@));
            assert forall|j: int| 0 <= j < out@.len() implies out.deep_view()[j] == target[j] by {
                if j < i {
                    assert(out@[j] == prev@[j]);
                    assert(prev.deep_view()[j] == tokens::spec_classify(words@[j]@));
                } else {
                    assert(out@[j] == gt);
                }
            }
            assert(out.deep_view() =~= target);
        }
        i += 1;
    }
    proof {
        assert(out.deep_view() =~= Seq::new(
            words@.len(),
            |j: int| tokens::spec_classify(words@[j]@),
        ));
    }
    out
}

/// Scan query text into tokens, or report the first lexical error.
///
/// Succeeds exactly when [`spec_tokens`] does on the text's characters,
/// with exactly its tokens or its error message.
pub fn state_based_tokenize(sql: &str) -> (r: Result<Vec<Token>, LexerError>)
    ensures
        match r {
            Ok(tokens) => spec_tokens(sql@) is Ok && tokens.deep_view() == spec_tokens(sql@)->Ok_0,
            Err(e) => spec_tokens(sql@) is Err && e.message@ == spec_tokens(sql@)->Err_0,
        },
{
    let all = chars::chars_of(sql);
    let trimmed = chars::trim_chars(all.as_slice());
    let ghost s = chars::spec_trim(sql@);
    let n = trimmed.len();
    let mut words: Vec<Vec<char>> = Vec::new();
    let mut state: LexerState = LexerState::Start;
    let mut current_word: Vec<char> = Vec::new();
    let mut i: usize = 0;
    proof {
        assert(s.subrange(0, 0int) =~= Seq::<char>::empty());
        assert(words.deep_view() =~= Seq::<Seq<char>>::empty());
        assert(ScanState { state: state, word: current_word@, words: words.deep_view() }
            =~~= spec_scan_init());
    }
    while i < n
        invariant
            s == chars::spec_trim(sql@),
            trimmed@ == s,
            n == s.len(),
            0 <= i <= n,
            spec_scan_from(spec_scan_init(), s.subrange(0, i as int)) == Ok::<ScanState, Seq<char>>(
                ScanState { state: state, word: current_word@, words: words.deep_view() },
            ),
        decreases n - i,
    {
        let ch = trimmed[i];
        let ghost acc = ScanState { state: state, word: current_word@, words: words.deep_view() };
        proof {
            lemma_scan_from_snoc(spec_scan_init(), s, i as int);
        }
        match state {
            LexerState::Start => {
                let response = handle_start_state(ch, &mut current_word, &mut state);
                match response {
                    Ok(possible_word) => {
                        if let Some(p) = possible_word {
                            let ghost prev = words;
                            let mut w: Vec<char> = Vec::new();
                            w.push(p);
                            let ghost gw = w;
                            words.push(w);
                            proof {
                                assert(gw@ =~= seq![ch]);
                                lemma_words_push(words, prev, gw);
                            }
                        }
                    },
                    Err(e) => {
                        proof {
                            lemma_scan_from_err(spec_scan_init(), s, i as int);
                        }
                        return Err(e);
                    },
                }
            },
            LexerState::InIdentifier => {
                let response = handle_in_identifier_state(ch, &mut current_word, &mut state);
                match response {
                    Ok(possible_word) => {
                        if let Some(terminator) = possible_word {
                            let ghost prev = words;
                            let ghost finished = current_word;
                            words.push(current_word);
                            current_word = Vec::new();
                            proof {
                                lemma_words_push(words, prev, finished);
                            }
                            if chars::is_punctuation(terminator) {
                                let ghost prev2 = words;
                                let mut w: Vec<char> = Vec::new();
                                w.push(terminator);
                                let ghost gw = w;
                                words.push(w);
                                proof {
                                    assert(gw@ =~= seq![ch]);
                                    lemma_words_push(words, prev2, gw);
                                }
                            }
                        }
                    },
                    Err(e) => {
                        proof {
                            lemma_scan_from_err(spec_scan_init(), s, i as int);
                        }
                        return Err(e);
                    },
                }
            },
            LexerState::InString(_) => {
                let closed = handle_in_string_state(ch, &mut current_word, &mut state);
                if closed {
                    let ghost prev = words;
                    let ghost finished = current_word;
                    words.push(current_word);
                    current_word = Vec::new();
                    proof {
                        lemma_words_push(words, prev, finished);
                    }
                }
            },
            LexerState::InNumber => {
                let response = handle_in_number_state(ch, &mut current_word, &mut state);
                match response {
                    Ok(possible_word) => {
                        if let Some(terminator) = possible_word {
                            let ghost prev = words;
                            let ghost finished = current_word;
                            words.push(current_word);
                            current_word = Vec::new();
                            proof {
                                lemma_words_push(words, prev, finished);
                            }
                            if chars::is_punctuation(terminator) {
                                let ghost prev2 = words;
                                let mut w: Vec<char> = Vec::new();
                                w.push(terminator);
                                let ghost gw = w;
                                words.push(w);
                                proof {
                                    assert(gw@ =~= seq![ch]);
                                    lemma_words_push(words, prev2, gw);
                                }
                            }
                        }
                    },
                    Err(e) => {
                        proof {
                            lemma_scan_from_err(spec_scan_init(), s, i as int);
                        }
                        return Err(e);
                    },
                }
            },
            LexerState::InOperator => {
                let response = handle_in_operator_state(ch, &mut current_word, &mut state);
                match response {
                    Ok(possible_word) => {
                        if let Some(terminator) = possible_word {
                            let ghost prev = words;
                            let ghost finished = current_word;
                            words.push(current_word);
                            current_word = Vec::new();
                            proof {
                                lemma_words_push(words, prev, finished);
                            }
                            if chars::is_punctuation(terminator) {
                                let ghost prev2 = words;
                                let mut w: Vec<char> = Vec::new();
                                w.push(terminator);
                                let ghost gw = w;
                                words.push(w);
                                proof {
                                    assert(gw@ =~= seq![ch]);
                                    lemma_words_push(words, prev2, gw);
                                }
                            } else if !chars::is_ws_terminator(terminator) {
                                current_word.push(terminator);
                                proof {
                                    assert(current_word@ =~= seq![ch]);
                                }
                            }
                        }
                    },
                    Err(e) => {
                        proof {
                            lemma_scan_from_err(spec_scan_init(), s, i as int);
                        }
                        return Err(e);
                    },
                }
            },
        }
        proof {
            let c = s[i as int];
            let step = spec_scan_step(acc, c);
            let post = ScanState { state: state, word: current_word@, words: words.deep_view() };
            assert(step is Ok);
            assert(post =~~= step->Ok_0);
            assert(spec_scan_from(spec_scan_init(), s.subrange(0, i + 1 as int)) == Ok::<
                ScanState,
                Seq<char>,
            >(post));
        }
        i += 1;
    }
    proof {
        assert(s.subrange(0, n as int) =~= s);
    }
    let ghost scanned = ScanState { state: state, word: current_word@, words: words.deep_view() };
    if current_word.len() > 0 {
        let ghost prev = words;
        let ghost finished = current_word;
        words.push(current_word);
        proof {
            lemma_words_push(words, prev, finished);
        }
    }
    proof {
        assert(spec_words_of(s) == Ok::<Seq<Seq<char>>, Seq<char>>(words.deep_view()));
    }
    let out = assign_tokens(&words);
    proof {
        let ws = spec_words_of(s)->Ok_0;
        let target = Seq::new(ws.len(), |j: int| tokens::spec_classify(ws[j]));
        assert forall|j: int| 0 <= j < ws.len() implies out.deep_view()[j] == target[j] by {
            lemma_word_deep_view(words@[j]);
            assert(ws[j] == words@[j]@);
        }
        assert(out.deep_view() =~= target);
    }
    Ok(out)
}

/// Scanning one more character folds one more step.
proof fn lemma_scan_from_snoc(init: ScanState, s: Seq<char>, i: int)
    requires
        0 <= i < s.len(),
    ensures
        spec_scan_from(init, s.subrange(0, i + 1)) == (match spec_scan_from(
            init,
            s.subrange(0, i),
        ) {
            Ok(acc) => spec_scan_step(acc, s[i]),
            Err(m) => Err(m),
        }),
{
    let one = seq![s[i]];
    lemma_scan_from_append(init, s.subrange(0, i), one);
    assert(s.subrange(0, i) + one =~= s.subrange(0, i + 1));
    match spec_scan_from(init, s.subrange(0, i)) {
        Ok(acc) => {
            assert(one.drop_first() =~= Seq::<char>::empty());
            match spec_scan_step(acc, s[i]) {
                Ok(acc2) => {
                    assert(spec_scan_from(acc2, one.drop_first()) == Ok::<ScanState, Seq<char>>(
                        acc2,
                    ));
                    assert(spec_scan_from(acc, one) == Ok::<ScanState, Seq<char>>(acc2));
                },
                Err(_) => {
                    assert(spec_scan_from(acc, one) == spec_scan_step(acc, s[i]));
                },
            }
        },
        Err(_) => {},
    }
}

/// A failed step fails the whole scan.
proof fn lemma_scan_from_err(init: ScanState, s: Seq<char>, i: int)
    requires
        0 <= i < s.len(),
        spec_scan_from(init, s.subrange(0, i)) is Ok,
        spec_scan_step(spec_scan_from(init, s.subrange(0, i))->Ok_0, s[i]) is Err,
    ensures
        spec_scan_from(init, s) is Err,
        spec_scan_from(init, s)->Err_0 == spec_scan_step(
            spec_scan_from(init, s.subrange(0, i))->Ok_0,
            s[i],
        )->Err_0,
{
    lemma_scan_from_append(init, s.subrange(0, i + 1), s.subrange(i + 1, s.len() as int));
    assert(s.subrange(0, i + 1) + s.subrange(i + 1, s.len() as int) =~= s);
    lemma_scan_from_snoc(init, s, i);
}

/// A scan state is orderly when the word being built is empty exactly
/// between words. Every state a scan reaches from the initial state is
/// orderly.
pub open spec fn spec_scan_wf(acc: ScanState) -> bool {
    (acc.state == LexerState::Start) <==> acc.word.len() == 0
}

/// Scanning keeps the scan state orderly.
pub proof fn lemma_scan_keeps_wf(acc: ScanState, s: Seq<char>)
    requires
        spec_scan_wf(acc),
        spec_scan_from(acc, s) is Ok,
    ensures
        spec_scan_wf(spec_scan_from(acc, s)->Ok_0),
    decreases s.len(),
{
    if s.len() > 0 {
        match spec_scan_step(acc, s[0]) {
            Ok(acc2) => {
                assert(spec_scan_wf(acc2));
                lemma_scan_keeps_wf(acc2, s.drop_first());
            },
            Err(_) => {},
        }
    }
}

/// The completed words a scan starts with never affect its course: a
/// scan from any starting list succeeds, fails, and builds exactly as
/// the scan from the empty list does, with the starting list in front.
pub proof fn lemma_scan_words_shift(
    st: LexerState,
    w: Seq<char>,
    ws: Seq<Seq<char>>,
    s: Seq<char>,
)
    ensures
        ({
            let from_empty = spec_scan_from(
                ScanState { state: st, word: w, words: Seq::empty() },
                s,
            );
            let from_ws = spec_scan_from(ScanState { state: st, word: w, words: ws }, s);
            match from_empty {
                Ok(a) => from_ws == Ok::<ScanState, Seq<char>>(
                    ScanState { state: a.state, word: a.word, words: ws + a.words },
                ),
                Err(m) => from_ws == Err::<ScanState, Seq<char>>(m),
            }
        }),
    decreases s.len(),
{
    let start_empty = ScanState { state: st, word: w, words: Seq::empty() };
    let start_ws = ScanState { state: st, word: w, words: ws };
    if s.len() == 0 {
        assert(ws + Seq::<Seq<char>>::empty() =~= ws);
        assert(start_ws =~~= ScanState {
            state: start_empty.state,
            word: start_empty.word,
            words: ws + start_empty.words,
        });
    } else {
        let c = s[0];
        let rest = s.drop_first();
        match spec_scan_step(start_empty, c) {
            Ok(a2) => {
                let b2 = spec_scan_step(start_ws, c)->Ok_0;
                assert(spec_scan_step(start_ws, c) is Ok);
                assert(b2.state == a2.state && b2.word == a2.word && b2.words =~= ws + a2.words);
                lemma_scan_words_shift(a2.state, a2.word, a2.words, rest);
                lemma_scan_words_shift(b2.state, b2.word, b2.words, rest);
                let canon = spec_scan_from(
                    ScanState { state: a2.state, word: a2.word, words: Seq::empty() },
                    rest,
                );
                match canon {
                    Ok(f) => {
                        assert(spec_scan_from(start_empty, s) == Ok::<ScanState, Seq<char>>(
                            ScanState { state: f.state, word: f.word, words: a2.words + f.words },
                        ));
                        assert(spec_scan_from(start_ws, s) == Ok::<ScanState, Seq<char>>(
                            ScanState { state: f.state, word: f.word, words: b2.words + f.words },
                        ));
                        assert(b2.words + f.words =~= ws + (a2.words + f.words));
                    },
                    Err(_) => {},
                }
            },
            Err(_) => {
                assert(spec_scan_step(start_ws, c) == spec_scan_step(start_empty, c));
            },
        }
    }
}

/// Scanning a concatenation scans the first part, then the second from
/// where the first left off.
pub proof fn lemma_scan_from_append(init: ScanState, s1: Seq<char>, s2: Seq<char>)
    ensures
        spec_scan_from(init, s1 + s2) == (match spec_scan_from(init, s1) {
            Ok(acc) => spec_scan_from(acc, s2),
            Err(m) => Err(m),
        }),
    decreases s1.len(),
{
    if s1.len() == 0 {
        assert(s1 + s2 =~= s2);
    } else {
        let c = s1[0];
        assert((s1 + s2)[0] == c);
        match spec_scan_step(init, c) {
            Ok(acc2) => {
                lemma_scan_from_append(acc2, s1.drop_first(), s2);
                assert((s1 + s2).drop_first() =~= s1.drop_first() + s2);
            },
            Err(_) => {
                assert((s1 + s2).len() > 0);
            },
        }
    }
}

/// Scan query text into tokens. The input must be free of lexical
/// errors; [`state_based_tokenize`] reports them instead.
pub fn tokenize(sql: &str) -> (r: Vec<Token>)
    requires
        spec_tokens(sql@) is Ok,
    ensures
        r.deep_view() == spec_tokens(sql@)->Ok_0,
{
    let response = state_based_tokenize(sql);
    match response {
        Ok(tokens) => tokens,
        Err(_) => {
            // the precondition rules lexical errors out
            proof {
                assert(false);
            }
            Vec::new()
        },
    }
}

} // verus!
