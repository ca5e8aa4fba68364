//! Laws that relate the tokenizer's classification and the parser's
//! productions across inputs, proved once and for all.

use vstd::prelude::*;
use crate::ast::{SelectItemV, SelectStatementV, StatementV};
use crate::chars;
use crate::grammar::GrammarType;
use crate::keywords::{self, KeywordType};
use crate::parser::{
    spec_parse_columns_rest,
    spec_parse_statement,
    ParseErr,
};
use crate::tokenizer::{
    lemma_scan_from_append,
    lemma_scan_keeps_wf,
    lemma_scan_words_shift,
    spec_scan_from,
    spec_scan_init,
    spec_scan_step,
    spec_tokens,
    spec_words_of,
    LexerState,
    ScanState,
};
use crate::tokens::{self, TokenV};

verus! {

/// A word that spells a keyword always classifies as that keyword:
/// keywords take precedence over every other word class, so no reserved
/// word can ever become an identifier.
pub proof fn lemma_keyword_precedence(w: Seq<char>)
    requires
        keywords::spec_keyword_of(w) is Some,
    ensures
        tokens::spec_classify(w) == TokenV::Keyword(keywords::spec_keyword_of(w)->Some_0),
{
}

/// The word `select`, in any mix of upper and lower case, always
/// classifies as the SELECT keyword, never as an identifier.
pub proof fn lemma_select_is_keyword(w: Seq<char>)
    requires
        keywords::spec_matches_ci(w, "SELECT"@),
    ensures
        tokens::spec_classify(w) == TokenV::Keyword(KeywordType::Select),
        tokens::spec_classify(w) != TokenV::Identifier(w),
{
    lemma_keyword_precedence(w);
}

/// The token sequence of a projection list: identifiers separated by
/// commas, in order.
pub open spec fn spec_projection_tokens(names: Seq<Seq<char>>) -> Seq<TokenV> {
    Seq::new(
        (2 * names.len() - 1) as nat,
        |i: int|
            if i % 2 == 0 {
                TokenV::Identifier(names[i / 2])
            } else {
                TokenV::Grammar(GrammarType::Comma)
            },
    )
}

/// The token sequence of a plain column-projection query:
/// `SELECT name, ..., name FROM 'source';`.
pub open spec fn spec_column_query_tokens(names: Seq<Seq<char>>, source: Seq<char>) -> Seq<TokenV> {
    seq![TokenV::Keyword(KeywordType::Select)] + spec_projection_tokens(names) + seq![
        TokenV::Keyword(KeywordType::From),
        TokenV::StringLiteral(source),
        TokenV::Grammar(GrammarType::Semicolon),
    ]
}

/// The select list of a comma-separated projection parses to its column
/// items, one per name, in the same left-to-right order.
proof fn lemma_columns_projection(
    toks: Seq<TokenV>,
    pos: int,
    names: Seq<Seq<char>>,
    acc: Seq<SelectItemV>,
)
    requires
        names.len() >= 1,
        0 <= pos,
        pos + 2 * names.len() - 1 < toks.len(),
        forall|i: int| 0 <= i < names.len() ==> toks[pos + 2 * i] == TokenV::Identifier(
            #[trigger] names[i],
        ),
        forall|i: int|
            0 <= i < names.len() - 1 ==> #[trigger] toks[pos + 2 * i + 1] == TokenV::Grammar(
                GrammarType::Comma,
            ),
        toks[pos + 2 * names.len() - 1] == TokenV::Keyword(KeywordType::From),
    ensures
        spec_parse_columns_rest(toks, pos, acc) == Ok::<(Seq<SelectItemV>, int), ParseErr>(
            (
                acc + names.map_values(|n: Seq<char>| SelectItemV::Column(n)),
                pos + 2 * names.len() - 1,
            ),
        ),
    decreases names.len(),
{
    let mapped = names.map_values(|n: Seq<char>| SelectItemV::Column(n));
    assert(toks[pos + 2 * 0] == TokenV::Identifier(names[0]));
    if names.len() == 1 {
        assert(toks[pos + 1] == TokenV::Keyword(KeywordType::From));
        assert(acc + mapped =~= acc.push(SelectItemV::Column(names[0])));
    } else {
        assert(toks[pos + 2 * 0 + 1] == TokenV::Grammar(GrammarType::Comma));
        let rest = names.drop_first();
        assert forall|i: int| 0 <= i < rest.len() implies toks[(pos + 2) + 2 * i]
            == TokenV::Identifier(#[trigger] rest[i]) by {
            assert(rest[i] == names[i + 1]);
            assert(toks[pos + 2 * (i + 1)] == TokenV::Identifier(names[i + 1]));
        }
        assert forall|i: int| 0 <= i < rest.len() - 1 implies #[trigger] toks[(pos + 2) + 2 * i + 1]
            == TokenV::Grammar(GrammarType::Comma) by {
            assert(toks[pos + 2 * (i + 1) + 1] == TokenV::Grammar(GrammarType::Comma));
        }
        assert(toks[(pos + 2) + 2 * rest.len() - 1] == TokenV::Keyword(KeywordType::From));
        lemma_columns_projection(toks, pos + 2, rest, acc.push(SelectItemV::Column(names[0])));
        assert(acc + mapped =~= acc.push(SelectItemV::Column(names[0])) + rest.map_values(
            |n: Seq<char>| SelectItemV::Column(n),
        ));
    }
}

/// Round-trip shape: a query that only projects columns parses to a
/// SELECT statement whose projection list has exactly one column item
/// per comma-separated name in the query, in the same left-to-right
/// order, with the quoted source as its FROM clause and no WHERE, GROUP
/// BY or ORDER BY clause.
pub proof fn lemma_column_query_round_trip(names: Seq<Seq<char>>, source: Seq<char>)
    requires
        names.len() >= 1,
    ensures
        ({
            let toks = spec_column_query_tokens(names, source);
            spec_parse_statement(toks, 0) == Ok::<(StatementV, int), ParseErr>(
                (
                    StatementV::Select(
                        SelectStatementV {
                            columns: names.map_values(|n: Seq<char>| SelectItemV::Column(n)),
                            from: Some(source),
                            where_clause: None,
                            group_by: None,
                            order_by: None,
                        },
                    ),
                    toks.len() - 1,
                ),
            )
        }),
{
    let toks = spec_column_query_tokens(names, source);
    let n = names.len() as int;
    let proj = spec_projection_tokens(names);
    assert(proj.len() == 2 * n - 1);
    assert(toks.len() == 2 * n + 3);
    assert(toks[0] == TokenV::Keyword(KeywordType::Select));
    assert forall|i: int| 0 <= i < n implies toks[1 + 2 * i] == TokenV::Identifier(
        #[trigger] names[i],
    ) by {
        assert(proj[2 * i] == TokenV::Identifier(names[2 * i / 2]));
        assert(2 * i / 2 == i);
        assert(toks[1 + 2 * i] == proj[2 * i]);
    }
    assert forall|i: int| 0 <= i < n - 1 implies #[trigger] toks[1 + 2 * i + 1] == TokenV::Grammar(
        GrammarType::Comma,
    ) by {
        assert(proj[2 * i + 1] == TokenV::Grammar(GrammarType::Comma));
        assert(toks[1 + 2 * i + 1] == proj[2 * i + 1]);
    }
    assert(toks[2 * n] == TokenV::Keyword(KeywordType::From));
    assert(toks[2 * n + 1] == TokenV::StringLiteral(source));
    assert(toks[2 * n + 2] == TokenV::Grammar(GrammarType::Semicolon));
    lemma_columns_projection(toks, 1, names, Seq::empty());
    assert(Seq::<SelectItemV>::empty() + names.map_values(|n: Seq<char>| SelectItemV::Column(n))
        =~= names.map_values(|n: Seq<char>| SelectItemV::Column(n)));
}

/// A plain identifier word: a letter or underscore, then letters, digits
/// and underscores, spelling no keyword.
pub open spec fn spec_is_identifier_word(w: Seq<char>) -> bool {
    &&& w.len() >= 1
    &&& (chars::is_alpha_char(w[0]) || w[0] == '_')
    &&& (forall|i: int| 0 <= i < w.len() ==> chars::is_alnum_char(#[trigger] w[i]) || w[i] == '_')
    &&& keywords::spec_keyword_of(w) is None
}

/// A word shorter than every reserved spelling, or differing from each
/// in its first character, spells no keyword.
proof fn lemma_not_a_keyword(w: Seq<char>)
    requires
        w.len() >= 1,
        !chars::is_alnum_char(w[0]),
    ensures
        keywords::spec_keyword_of(w) is None,
{
    reveal_strlit("SELECT");
    reveal_strlit("FROM");
    reveal_strlit("WHERE");
    reveal_strlit("ORDER");
    reveal_strlit("GROUP");
    reveal_strlit("BY");
    reveal_strlit("AND");
    reveal_strlit("OR");
    reveal_strlit("ASC");
    reveal_strlit("DESC");
    reveal_strlit("COUNT");
    reveal_strlit("AVG");
    reveal_strlit("MIN");
    reveal_strlit("MAX");
    reveal_strlit("SUM");
    reveal_strlit("TRUE");
    reveal_strlit("FALSE");
    assert(!keywords::spec_matches_ci(w, "SELECT"@)) by {
        if w.len() == "SELECT"@.len() {
            assert(!chars::spec_ci_eq(w[0], 'S'));
        }
    }
    assert(!keywords::spec_matches_ci(w, "FROM"@)) by {
        if w.len() == "FROM"@.len() {
            assert(!chars::spec_ci_eq(w[0], 'F'));
        }
    }
    assert(!keywords::spec_matches_ci(w, "WHERE"@)) by {
        if w.len() == "WHERE"@.len() {
            assert(!chars::spec_ci_eq(w[0], 'W'));
        }
    }
    assert(!keywords::spec_matches_ci(w, "ORDER"@)) by {
        if w.len() == "ORDER"@.len() {
            assert(!chars::spec_ci_eq(w[0], 'O'));
        }
    }
    assert(!keywords::spec_matches_ci(w, "GROUP"@)) by {
        if w.len() == "GROUP"@.len() {
            assert(!chars::spec_ci_eq(w[0], 'G'));
        }
    }
    assert(!keywords::spec_matches_ci(w, "BY"@)) by {
        if w.len() == "BY"@.len() {
            assert(!chars::spec_ci_eq(w[0], 'B'));
        }
    }
    assert(!keywords::spec_matches_ci(w, "AND"@)) by {
        if w.len() == "AND"@.len() {
            assert(!chars::spec_ci_eq(w[0], 'A'));
        }
    }
    assert(!keywords::spec_matches_ci(w, "OR"@)) by {
        if w.len() == "OR"@.len() {
            assert(!chars::spec_ci_eq(w[0], 'O'));
        }
    }
    assert(!keywords::spec_matches_ci(w, "ASC"@)) by {
        if w.len() == "ASC"@.len() {
            assert(!chars::spec_ci_eq(w[0], 'A'));
        }
    }
    assert(!keywords::spec_matches_ci(w, "DESC"@)) by {
        if w.len() == "DESC"@.len() {
            assert(!chars::spec_ci_eq(w[0], 'D'));
        }
    }
    assert(!keywords::spec_matches_ci(w, "COUNT"@)) by {
        if w.len() == "COUNT"@.len() {
            assert(!chars::spec_ci_eq(w[0], 'C'));
        }
    }
    assert(!keywords::spec_matches_ci(w, "AVG"@)) by {
        if w.len() == "AVG"@.len() {
            assert(!chars::spec_ci_eq(w[0], 'A'));
        }
    }
    assert(!keywords::spec_matches_ci(w, "MIN"@)) by {
        if w.len() == "MIN"@.len() {
            assert(!chars::spec_ci_eq(w[0], 'M'));
        }
    }
    assert(!keywords::spec_matches_ci(w, "MAX"@)) by {
        if w.len() == "MAX"@.len() {
            assert(!chars::spec_ci_eq(w[0], 'M'));
        }
    }
    assert(!keywords::spec_matches_ci(w, "SUM"@)) by {
        if w.len() == "SUM"@.len() {
            assert(!chars::spec_ci_eq(w[0], 'S'));
        }
    }
    assert(!keywords::spec_matches_ci(w, "TRUE"@)) by {
        if w.len() == "TRUE"@.len() {
            assert(!chars::spec_ci_eq(w[0], 'T'));
        }
    }
    assert(!keywords::spec_matches_ci(w, "FALSE"@)) by {
        if w.len() == "FALSE"@.len() {
            assert(!chars::spec_ci_eq(w[0], 'F'));
        }
    }
}

/// A word with a character that is neither a digit nor a decimal point
/// has fewer digits and points together than characters.
proof fn lemma_counts_fall_short(w: Seq<char>, i: int)
    requires
        0 <= i < w.len(),
        !chars::spec_is_digit(w[i]),
        w[i] != '.',
    ensures
        tokens::spec_digit_count(w) + tokens::spec_dot_count(w) < w.len(),
    decreases w.len(),
{
    tokens::lemma_counts_bounded(w.drop_last());
    if i < w.len() - 1 {
        lemma_counts_fall_short(w.drop_last(), i);
    }
}

/// A plain identifier word classifies as an identifier.
proof fn lemma_identifier_word_classifies(w: Seq<char>)
    requires
        spec_is_identifier_word(w),
    ensures
        tokens::spec_classify(w) == TokenV::Identifier(w),
{
    assert(!chars::spec_is_digit(w[0]) && w[0] != '.');
    lemma_counts_fall_short(w, 0);
}

/// A single-quoted word classifies as a string literal holding the text
/// between the quotes.
proof fn lemma_quoted_word_classifies(src: Seq<char>)
    ensures
        tokens::spec_classify(seq!['\''] + src + seq!['\'']) == TokenV::StringLiteral(src),
{
    let w = seq!['\''] + src + seq!['\''];
    assert(w.len() == src.len() + 2);
    assert(w[0] == '\'');
    assert(w.last() == '\'');
    lemma_not_a_keyword(w);
    assert(!chars::spec_is_digit(w[0]) && w[0] != '.');
    lemma_counts_fall_short(w, 0);
    assert(w.subrange(1, w.len() - 1) =~= src);
}

/// Scanning letters, digits and underscores inside an identifier extends
/// the word and nothing else.
proof fn lemma_scan_identifier_tail(word: Seq<char>, ws: Seq<Seq<char>>, rest: Seq<char>)
    requires
        forall|i: int| 0 <= i < rest.len() ==> chars::is_alnum_char(#[trigger] rest[i]) || rest[i]
            == '_',
    ensures
        spec_scan_from(
            ScanState { state: LexerState::InIdentifier, word: word, words: ws },
            rest,
        ) == Ok::<ScanState, Seq<char>>(
            ScanState { state: LexerState::InIdentifier, word: word + rest, words: ws },
        ),
    decreases rest.len(),
{
    let acc = ScanState { state: LexerState::InIdentifier, word: word, words: ws };
    if rest.len() == 0 {
        assert(word + rest =~= word);
        assert(acc =~~= ScanState {
            state: LexerState::InIdentifier,
            word: word + rest,
            words: ws,
        });
    } else {
        let c = rest[0];
        assert(chars::is_alnum_char(c) || c == '_');
        assert(!chars::spec_is_ws_terminator(c) && !chars::spec_is_punctuation(c));
        lemma_scan_identifier_tail(word.push(c), ws, rest.drop_first());
        assert(word.push(c) + rest.drop_first() =~= word + rest);
    }
}

/// Scanning a plain identifier word from between words builds exactly
/// that word.
proof fn lemma_scan_identifier_word(ws: Seq<Seq<char>>, name: Seq<char>)
    requires
        name.len() >= 1,
        chars::is_alpha_char(name[0]) || name[0] == '_',
        forall|i: int| 0 <= i < name.len() ==> chars::is_alnum_char(#[trigger] name[i]) || name[i]
            == '_',
    ensures
        spec_scan_from(
            ScanState { state: LexerState::Start, word: Seq::empty(), words: ws },
            name,
        ) == Ok::<ScanState, Seq<char>>(
            ScanState { state: LexerState::InIdentifier, word: name, words: ws },
        ),
{
    let c = name[0];
    assert(!chars::spec_is_ws_terminator(c));
    lemma_scan_identifier_tail(Seq::empty().push(c), ws, name.drop_first());
    assert(Seq::empty().push(c) + name.drop_first() =~= name);
}

/// Scanning the inside of a quoted string absorbs every character up to
/// the closing quote.
proof fn lemma_scan_string_body(q: char, word: Seq<char>, ws: Seq<Seq<char>>, body: Seq<char>)
    requires
        forall|i: int| 0 <= i < body.len() ==> #[trigger] body[i] != q,
    ensures
        spec_scan_from(
            ScanState { state: LexerState::InString(q), word: word, words: ws },
            body,
        ) == Ok::<ScanState, Seq<char>>(
            ScanState { state: LexerState::InString(q), word: word + body, words: ws },
        ),
    decreases body.len(),
{
    let acc = ScanState { state: LexerState::InString(q), word: word, words: ws };
    if body.len() == 0 {
        assert(word + body =~= word);
        assert(acc =~~= ScanState {
            state: LexerState::InString(q),
            word: word + body,
            words: ws,
        });
    } else {
        lemma_scan_string_body(q, word.push(body[0]), ws, body.drop_first());
        assert(word.push(body[0]) + body.drop_first() =~= word + body);
    }
}

/// A sequence with no whitespace at either end is its own trim.
proof fn lemma_trim_no_edge_space(s: Seq<char>)
    requires
        s.len() > 0 ==> !chars::is_space_char(s[0]) && !chars::is_space_char(s.last()),
    ensures
        chars::spec_trim(s) == s,
{
}

/// A one-character punctuation word classifies as its symbol.
proof fn lemma_punct_word_classifies(c: char)
    requires
        chars::spec_is_punctuation(c),
    ensures
        tokens::spec_classify(seq![c]) == TokenV::Grammar(
            crate::grammar::spec_grammar_of_char(c)->Some_0,
        ),
{
    lemma_not_a_keyword(seq![c]);
}

/// Scanning a sequence that starts with one known character takes one
/// step on it and goes on with the rest.
proof fn lemma_scan_one(acc: ScanState, c: char, rest: Seq<char>)
    ensures
        spec_scan_from(acc, seq![c] + rest) == (match spec_scan_step(acc, c) {
            Ok(a2) => spec_scan_from(a2, rest),
            Err(m) => Err(m),
        }),
{
    assert((seq![c] + rest)[0] == c);
    assert((seq![c] + rest).drop_first() =~= rest);
}

/// The text of a projection list: the names joined by a comma and a
/// space.
pub open spec fn spec_names_text(names: Seq<Seq<char>>) -> Seq<char>
    decreases names.len(),
{
    if names.len() <= 1 {
        if names.len() == 1 {
            names[0]
        } else {
            Seq::empty()
        }
    } else {
        names[0] + seq![','] + seq![' '] + spec_names_text(names.drop_first())
    }
}

/// The words the scanner completes while reading a projection list: each
/// name but the last, each followed by its comma as a word of its own.
pub open spec fn spec_names_words(names: Seq<Seq<char>>) -> Seq<Seq<char>>
    decreases names.len(),
{
    if names.len() <= 1 {
        Seq::empty()
    } else {
        seq![names[0], seq![',']] + spec_names_words(names.drop_first())
    }
}

/// Where each word of a projection list stands: names at even positions,
/// commas at odd ones.
proof fn lemma_names_words_index(names: Seq<Seq<char>>, j: int)
    requires
        names.len() >= 1,
        0 <= j < names.len() - 1,
    ensures
        spec_names_words(names).len() == 2 * (names.len() - 1),
        spec_names_words(names)[2 * j] == names[j],
        spec_names_words(names)[2 * j + 1] == seq![','],
    decreases names.len(),
{
    if names.len() > 1 {
        if j == 0 {
            lemma_names_words_len(names.drop_first());
        } else {
            lemma_names_words_index(names.drop_first(), j - 1);
            assert(names.drop_first()[j - 1] == names[j]);
        }
        lemma_names_words_len(names);
    }
}

/// The projection word list holds two words for each name but the last.
proof fn lemma_names_words_len(names: Seq<Seq<char>>)
    ensures
        spec_names_words(names).len() == if names.len() <= 1 {
            0int
        } else {
            2 * (names.len() - 1)
        },
    decreases names.len(),
{
    if names.len() > 1 {
        lemma_names_words_len(names.drop_first());
    }
}

/// Scanning a projection list completes each name but the last, with its
/// comma, and leaves the last name in the word being built.
proof fn lemma_scan_names(ws: Seq<Seq<char>>, names: Seq<Seq<char>>)
    requires
        names.len() >= 1,
        forall|k: int| 0 <= k < names.len() ==> spec_is_identifier_word(#[trigger] names[k]),
    ensures
        spec_scan_from(
            ScanState { state: LexerState::Start, word: Seq::empty(), words: ws },
            spec_names_text(names),
        ) == Ok::<ScanState, Seq<char>>(
            ScanState {
                state: LexerState::InIdentifier,
                word: names.last(),
                words: ws + spec_names_words(names),
            },
        ),
    decreases names.len(),
{
    let start = ScanState { state: LexerState::Start, word: Seq::empty(), words: ws };
    assert(spec_is_identifier_word(names[0]));
    if names.len() == 1 {
        lemma_scan_identifier_word(ws, names[0]);
        assert(ws + spec_names_words(names) =~= ws);
        assert(spec_scan_from(start, spec_names_text(names)) == Ok::<ScanState, Seq<char>>(
            ScanState { state: LexerState::InIdentifier, word: names[0], words: ws },
        ));
        assert(ScanState { state: LexerState::InIdentifier, word: names[0], words: ws }
            =~~= ScanState {
            state: LexerState::InIdentifier,
            word: names.last(),
            words: ws + spec_names_words(names),
        });
    } else {
        let rest = names.drop_first();
        let tail = seq![','] + (seq![' '] + spec_names_text(rest));
        assert(spec_names_text(names) =~= names[0] + tail);
        lemma_scan_from_append(start, names[0], tail);
        lemma_scan_identifier_word(ws, names[0]);
        let mid1 = ScanState { state: LexerState::InIdentifier, word: names[0], words: ws };
        lemma_scan_one(mid1, ',', seq![' '] + spec_names_text(rest));
        let ws2 = ws.push(names[0]).push(seq![',']);
        let mid2 = ScanState { state: LexerState::Start, word: Seq::empty(), words: ws2 };
        assert(spec_scan_step(mid1, ',') == Ok::<ScanState, Seq<char>>(mid2)) by {
            assert(spec_scan_step(mid1, ',')->Ok_0 =~~= mid2);
        }
        lemma_scan_one(mid2, ' ', spec_names_text(rest));
        assert(spec_scan_step(mid2, ' ') == Ok::<ScanState, Seq<char>>(mid2));
        assert(forall|k: int|
            0 <= k < rest.len() ==> spec_is_identifier_word(#[trigger] rest[k]) && rest[k]
                == names[k + 1]);
        lemma_scan_names(ws2, rest);
        assert(names.last() == rest.last());
        assert(ws2 + spec_names_words(rest) =~= ws + spec_names_words(names));
        assert(ScanState {
            state: LexerState::InIdentifier,
            word: rest.last(),
            words: ws2 + spec_names_words(rest),
        } =~~= ScanState {
            state: LexerState::InIdentifier,
            word: names.last(),
            words: ws + spec_names_words(names),
        });
    }
}

/// The text of a plain column-projection query:
/// `select name, ..., name from 'source';`.
pub open spec fn spec_column_query_text(names: Seq<Seq<char>>, source: Seq<char>) -> Seq<char> {
    "select "@ + spec_names_text(names) + " from '"@ + source + seq!['\''] + seq![';']
}

/// The words the scanner completes for a plain column-projection query.
spec fn spec_column_query_words(names: Seq<Seq<char>>, source: Seq<char>) -> Seq<Seq<char>> {
    seq!["select"@] + spec_names_words(names) + seq![
        names.last(),
        "from"@,
        seq!['\''] + source + seq!['\''],
        seq![';'],
    ]
}

/// Scanning a plain column-projection query completes exactly its words:
/// the keywords, each name, each comma, the quoted source, and the final
/// semicolon.
proof fn lemma_scan_column_query(names: Seq<Seq<char>>, source: Seq<char>)
    requires
        names.len() >= 1,
        forall|k: int| 0 <= k < names.len() ==> spec_is_identifier_word(#[trigger] names[k]),
        forall|i: int| 0 <= i < source.len() ==> #[trigger] source[i] != '\'',
    ensures
        spec_words_of(spec_column_query_text(names, source)) == Ok::<Seq<Seq<char>>, Seq<char>>(
            spec_column_query_words(names, source),
        ),
{
    reveal_strlit("select ");
    reveal_strlit("select");
    reveal_strlit(" from '");
    reveal_strlit("from");
    let text = spec_column_query_text(names, source);
    let select_word = "select"@;
    let from_word = "from"@;
    assert(select_word.len() == 6 && from_word.len() == 4);
    assert forall|i: int| 0 <= i < select_word.len() implies chars::is_alnum_char(
        #[trigger] select_word[i],
    ) || select_word[i] == '_' by {
        if i == 0 {
            assert(select_word[i] == 's');
        } else if i == 1 {
            assert(select_word[i] == 'e');
        } else if i == 2 {
            assert(select_word[i] == 'l');
        } else if i == 3 {
            assert(select_word[i] == 'e');
        } else if i == 4 {
            assert(select_word[i] == 'c');
        } else {
            assert(select_word[i] == 't');
        }
    }
    assert forall|i: int| 0 <= i < from_word.len() implies chars::is_alnum_char(
        #[trigger] from_word[i],
    ) || from_word[i] == '_' by {
        if i == 0 {
            assert(from_word[i] == 'f');
        } else if i == 1 {
            assert(from_word[i] == 'r');
        } else if i == 2 {
            assert(from_word[i] == 'o');
        } else {
            assert(from_word[i] == 'm');
        }
    }

    // the pieces of the text, scanned left to right
    let quoted = seq!['\''] + source + seq!['\''];
    let tail5 = seq![';'];
    let tail4 = seq!['\''] + tail5;
    let tail3 = source + tail4;
    let tail2 = seq!['\''] + tail3;
    let tail1 = seq![' '] + (from_word + (seq![' '] + tail2));
    let tail0 = spec_names_text(names) + tail1;
    assert(text =~= select_word + (seq![' '] + tail0));

    // `select` and the space after it
    lemma_scan_from_append(spec_scan_init(), select_word, seq![' '] + tail0);
    lemma_scan_identifier_word(Seq::empty(), select_word);
    let a1 = ScanState {
        state: LexerState::InIdentifier,
        word: select_word,
        words: Seq::empty(),
    };
    lemma_scan_one(a1, ' ', tail0);
    let w1 = seq![select_word];
    let a2 = ScanState { state: LexerState::Start, word: Seq::empty(), words: w1 };
    assert(spec_scan_step(a1, ' ') == Ok::<ScanState, Seq<char>>(a2)) by {
        assert(spec_scan_step(a1, ' ')->Ok_0 =~~= a2);
    }

    // the projection list, leaving the last name pending
    lemma_scan_from_append(a2, spec_names_text(names), tail1);
    lemma_scan_names(w1, names);
    let w2 = w1 + spec_names_words(names);
    let a3 = ScanState { state: LexerState::InIdentifier, word: names.last(), words: w2 };

    // the space before `from` finishes the last name
    lemma_scan_one(a3, ' ', from_word + (seq![' '] + tail2));
    let w3 = w2.push(names.last());
    let a4 = ScanState { state: LexerState::Start, word: Seq::empty(), words: w3 };
    assert(names.last().len() >= 1);
    assert(spec_scan_step(a3, ' ') == Ok::<ScanState, Seq<char>>(a4)) by {
        assert(spec_scan_step(a3, ' ')->Ok_0 =~~= a4);
    }

    // `from` and the space after it
    lemma_scan_from_append(a4, from_word, seq![' '] + tail2);
    lemma_scan_identifier_word(w3, from_word);
    let a5 = ScanState { state: LexerState::InIdentifier, word: from_word, words: w3 };
    lemma_scan_one(a5, ' ', tail2);
    let w4 = w3.push(from_word);
    let a6 = ScanState { state: LexerState::Start, word: Seq::empty(), words: w4 };
    assert(spec_scan_step(a5, ' ') == Ok::<ScanState, Seq<char>>(a6)) by {
        assert(spec_scan_step(a5, ' ')->Ok_0 =~~= a6);
    }

    // the opening quote, the source text, and the closing quote
    lemma_scan_one(a6, '\'', tail3);
    let a7 = ScanState {
        state: LexerState::InString('\''),
        word: seq!['\''],
        words: w4,
    };
    assert(spec_scan_step(a6, '\'') == Ok::<ScanState, Seq<char>>(a7)) by {
        assert(spec_scan_step(a6, '\'')->Ok_0 =~~= a7);
    }
    lemma_scan_from_append(a7, source, tail4);
    lemma_scan_string_body('\'', seq!['\''], w4, source);
    let a8 = ScanState {
        state: LexerState::InString('\''),
        word: seq!['\''] + source,
        words: w4,
    };
    lemma_scan_one(a8, '\'', tail5);
    let w5 = w4.push(quoted);
    let a9 = ScanState { state: LexerState::Start, word: Seq::empty(), words: w5 };
    assert(spec_scan_step(a8, '\'') == Ok::<ScanState, Seq<char>>(a9)) by {
        assert((seq!['\''] + source).push('\'') =~= quoted);
        assert(spec_scan_step(a8, '\'')->Ok_0 =~~= a9);
    }

    // the final semicolon
    assert(tail5 =~= seq![';'] + Seq::<char>::empty());
    lemma_scan_one(a9, ';', Seq::empty());
    let w6 = w5.push(seq![';']);
    let a10 = ScanState { state: LexerState::Start, word: Seq::empty(), words: w6 };
    assert(spec_scan_step(a9, ';') == Ok::<ScanState, Seq<char>>(a10)) by {
        assert(spec_scan_step(a9, ';')->Ok_0 =~~= a10);
    }
    assert(spec_scan_from(a10, Seq::<char>::empty()) == Ok::<ScanState, Seq<char>>(a10));

    assert(spec_scan_from(spec_scan_init(), text) == Ok::<ScanState, Seq<char>>(a10));
    assert(w6 =~= spec_column_query_words(names, source));
}

/// Round-trip shape, from the query text itself: a plain
/// column-projection query tokenizes to exactly the SELECT, name, comma,
/// FROM, source and semicolon tokens it spells, and those parse to a
/// SELECT statement with one column item per comma-separated name of the
/// text, in the same left-to-right order, the quoted source as its FROM
/// clause, and no WHERE, GROUP BY or ORDER BY clause.
pub proof fn lemma_text_round_trip(names: Seq<Seq<char>>, source: Seq<char>)
    requires
        names.len() >= 1,
        forall|k: int| 0 <= k < names.len() ==> spec_is_identifier_word(#[trigger] names[k]),
        forall|i: int| 0 <= i < source.len() ==> #[trigger] source[i] != '\'',
    ensures
        spec_tokens(spec_column_query_text(names, source)) == Ok::<Seq<TokenV>, Seq<char>>(
            spec_column_query_tokens(names, source),
        ),
        spec_parse_statement(spec_column_query_tokens(names, source), 0) == Ok::<
            (StatementV, int),
            ParseErr,
        >(
            (
                StatementV::Select(
                    SelectStatementV {
                        columns: names.map_values(|n: Seq<char>| SelectItemV::Column(n)),
                        from: Some(source),
                        where_clause: None,
                        group_by: None,
                        order_by: None,
                    },
                ),
                spec_column_query_tokens(names, source).len() - 1,
            ),
        ),
{
    reveal_strlit("select ");
    reveal_strlit("select");
    reveal_strlit("from");
    reveal_strlit("SELECT");
    reveal_strlit("FROM");
    let text = spec_column_query_text(names, source);
    let n = names.len() as int;

    // the text has no whitespace at its ends, so it is its own trim
    assert(text[0] == 's');
    assert(text.last() == ';');
    assert(text.len() > 0);
    lemma_trim_no_edge_space(text);

    // scan the text into its words
    lemma_scan_column_query(names, source);
    let ws = spec_column_query_words(names, source);
    lemma_names_words_len(names);
    assert(ws.len() == 2 * n + 3);

    // classify each word
    assert(keywords::spec_matches_ci("select"@, "SELECT"@)) by {
        assert forall|i: int| 0 <= i < "SELECT"@.len() implies chars::spec_ci_eq(
            #[trigger] "select"@[i],
            "SELECT"@[i],
        ) by {
            if i == 0 {
                assert("select"@[i] == 's' && "SELECT"@[i] == 'S');
            } else if i == 1 {
                assert("select"@[i] == 'e' && "SELECT"@[i] == 'E');
            } else if i == 2 {
                assert("select"@[i] == 'l' && "SELECT"@[i] == 'L');
            } else if i == 3 {
                assert("select"@[i] == 'e' && "SELECT"@[i] == 'E');
            } else if i == 4 {
                assert("select"@[i] == 'c' && "SELECT"@[i] == 'C');
            } else {
                assert("select"@[i] == 't' && "SELECT"@[i] == 'T');
            }
        }
    }
    assert(tokens::spec_classify("select"@) == TokenV::Keyword(KeywordType::Select));
    assert(keywords::spec_matches_ci("from"@, "FROM"@)) by {
        assert forall|i: int| 0 <= i < "FROM"@.len() implies chars::spec_ci_eq(
            #[trigger] "from"@[i],
            "FROM"@[i],
        ) by {
            if i == 0 {
                assert("from"@[i] == 'f' && "FROM"@[i] == 'F');
            } else if i == 1 {
                assert("from"@[i] == 'r' && "FROM"@[i] == 'R');
            } else if i == 2 {
                assert("from"@[i] == 'o' && "FROM"@[i] == 'O');
            } else {
                assert("from"@[i] == 'm' && "FROM"@[i] == 'M');
            }
        }
    }
    assert(tokens::spec_classify("from"@) == TokenV::Keyword(KeywordType::From));
    lemma_punct_word_classifies(',');
    lemma_punct_word_classifies(';');
    lemma_quoted_word_classifies(source);

    // the classified words are exactly the query's tokens
    let toks = spec_column_query_tokens(names, source);
    let proj = spec_projection_tokens(names);
    assert(toks.len() == 2 * n + 3);
    let tj = spec_tokens(text)->Ok_0;
    assert(spec_tokens(text) is Ok && tj.len() == ws.len());
    assert forall|i: int| 0 <= i < tj.len() implies tj[i] == toks[i] by {
        assert(tj[i] == tokens::spec_classify(ws[i]));
        if i == 0 {
            assert(ws[i] == "select"@);
        } else if i < 2 * n - 1 {
            let m = i - 1;
            assert(ws[i] == spec_names_words(names)[m]);
            assert(toks[i] == proj[m]);
            if m % 2 == 0 {
                lemma_names_words_index(names, m / 2);
                assert(ws[i] == names[m / 2]);
                lemma_identifier_word_classifies(names[m / 2]);
            } else {
                lemma_names_words_index(names, (m - 1) / 2);
                assert(ws[i] == seq![',']);
            }
        } else if i == 2 * n - 1 {
            assert(ws[i] == names.last());
            assert(toks[i] == proj[2 * n - 2]);
            assert((2 * n - 2) / 2 == n - 1);
            lemma_identifier_word_classifies(names[n - 1]);
        } else if i == 2 * n {
            assert(ws[i] == "from"@);
        } else if i == 2 * n + 1 {
            assert(ws[i] == seq!['\''] + source + seq!['\'']);
        } else {
            assert(ws[i] == seq![';']);
        }
    }
    assert(tj =~= toks);

    // and those tokens parse to the statement
    lemma_column_query_round_trip(names, source);
}

/// Idempotent classification: the concatenation of two scannable queries,
/// separated by a semicolon, tokenizes to the concatenation of their
/// token sequences with one semicolon token at the boundary.
///
/// The law asks that neither query carry whitespace at its ends (each is
/// then its own trim, as it is when tokenized alone) and that the first
/// not end inside an unterminated quoted string, which would swallow the
/// boundary semicolon: `'abc` tokenizes alone but swallows everything
/// after it in a concatenation.
pub proof fn lemma_tokenize_concat(s1: Seq<char>, s2: Seq<char>)
    requires
        spec_tokens(s1) is Ok,
        spec_tokens(s2) is Ok,
        s1.len() > 0 ==> !chars::is_space_char(s1[0]) && !chars::is_space_char(s1.last()),
        s2.len() > 0 ==> !chars::is_space_char(s2[0]) && !chars::is_space_char(s2.last()),
        !(spec_scan_from(spec_scan_init(), s1)->Ok_0.state matches LexerState::InString(_)),
    ensures
        spec_tokens(s1 + seq![';'] + s2) is Ok,
        spec_tokens(s1 + seq![';'] + s2)->Ok_0 == spec_tokens(s1)->Ok_0 + seq![
            TokenV::Grammar(GrammarType::Semicolon),
        ] + spec_tokens(s2)->Ok_0,
{
    let joined = s1 + seq![';'] + s2;
    lemma_trim_no_edge_space(s1);
    lemma_trim_no_edge_space(s2);
    if joined.len() > 0 {
        if s1.len() > 0 {
            assert(joined[0] == s1[0]);
        } else {
            assert(joined[0] == ';');
        }
        if s2.len() > 0 {
            assert(joined.last() == s2.last());
        } else {
            assert(joined.last() == ';');
        }
    }
    lemma_trim_no_edge_space(joined);

    // scan the first query, then the boundary and the second
    let acc1 = spec_scan_from(spec_scan_init(), s1)->Ok_0;
    assert(spec_scan_from(spec_scan_init(), s1) is Ok);
    lemma_scan_keeps_wf(spec_scan_init(), s1);
    lemma_scan_from_append(spec_scan_init(), s1, seq![';'] + s2);
    assert(s1 + (seq![';'] + s2) =~= joined);

    // the semicolon finishes any pending word and stands as its own word
    let step = spec_scan_step(acc1, ';');
    assert(step is Ok);
    let mid = step->Ok_0;
    let words1 = spec_words_of(s1)->Ok_0;
    assert(mid.state == LexerState::Start && mid.word =~= Seq::<char>::empty());
    assert(mid.words =~= words1.push(seq![';']));
    assert((seq![';'] + s2).drop_first() =~= s2);

    // the second query scans as it does alone, words prepended
    let acc2 = spec_scan_from(spec_scan_init(), s2)->Ok_0;
    assert(spec_scan_from(spec_scan_init(), s2) is Ok);
    lemma_scan_words_shift(LexerState::Start, Seq::empty(), mid.words, s2);
    assert(ScanState { state: LexerState::Start, word: Seq::empty(), words: Seq::empty() }
        =~~= spec_scan_init());
    assert(ScanState { state: LexerState::Start, word: Seq::empty(), words: mid.words } =~~= mid);
    let accj = spec_scan_from(spec_scan_init(), joined)->Ok_0;
    assert(spec_scan_from(spec_scan_init(), joined) is Ok);
    assert(accj.word == acc2.word && accj.words == mid.words + acc2.words);

    // the flushed word lists concatenate
    let words2 = spec_words_of(s2)->Ok_0;
    let wordsj = spec_words_of(joined)->Ok_0;
    assert(wordsj =~= words1 + seq![seq![';']] + words2) by {
        if acc2.word.len() > 0 {
            assert(wordsj == accj.words.push(accj.word));
            assert(words2 == acc2.words.push(acc2.word));
        }
    }

    // classification maps over the concatenation word by word
    lemma_punct_word_classifies(';');
    let t1 = spec_tokens(s1)->Ok_0;
    let t2 = spec_tokens(s2)->Ok_0;
    let tj = spec_tokens(joined)->Ok_0;
    assert forall|i: int| 0 <= i < tj.len() implies tj[i] == (t1 + seq![
        TokenV::Grammar(GrammarType::Semicolon),
    ] + t2)[i] by {
        if i < words1.len() {
            assert(wordsj[i] == words1[i]);
        } else if i == words1.len() {
            assert(wordsj[i] == seq![';']);
        } else {
            assert(wordsj[i] == words2[i - words1.len() - 1]);
        }
    }
    assert(tj =~= t1 + seq![TokenV::Grammar(GrammarType::Semicolon)] + t2);
}

} // verus!
