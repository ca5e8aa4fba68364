//! The recursive-descent parser: one function per grammar production,
//! with an explicit cursor over the token sequence and no backtracking
//! once a production has committed.
//!
//! The grammar, top to bottom:
//!
//! ```text
//! statement        := select_statement
//! select_statement := SELECT select_list FROM source [WHERE or_expr]
//!                     [GROUP BY column_list] [ORDER BY order_list]
//! select_list      := select_item (',' select_item)*
//! select_item      := '*' | aggregate | IDENTIFIER
//! aggregate        := (COUNT|SUM|AVG|MIN|MAX) '(' ('*' | IDENTIFIER) ')'
//! or_expr          := and_expr (OR and_expr)*
//! and_expr         := comparison (AND comparison)*
//! comparison       := primary comparison_operator primary
//! primary          := IDENTIFIER | INTEGER | FLOAT | STRING | TRUE | FALSE
//! ```
//!
//! Each production is stated as a spec function from the token sequence
//! and a cursor position to the parsed node and the new position, or to
//! a syntax error carrying a message and the position of the mismatch.
//! The executable methods return exactly what those functions say.

use vstd::prelude::*;
use vstd::string::StringExecFns;
use crate::ast::{
    spec_opt_expr_view,
    spec_opt_exprs_view,
    spec_opt_from_view,
    spec_opt_orders_view,
    AggregateFunc,
    BinaryOperator,
    Expr,
    ExprV,
    FromClause,
    OrderByItem,
    OrderByItemV,
    SelectItem,
    SelectItemV,
    SelectStatement,
    SelectStatementV,
    Statement,
    StatementV,
    Value,
    ValueV,
};
use crate::errors::ParserError;
use crate::grammar::{self, GrammarType};
use crate::keywords::{self, KeywordType};
use crate::operators::{self, OperatorType};
use crate::text;
use crate::tokens::{Token, TokenV};

verus! {

/// A syntax error in the mathematical model: the diagnostic message and
/// the token position at which the mismatch was found.
#[verifier::ext_equal]
pub struct ParseErr {
    pub msg: Seq<char>,
    pub pos: int,
}

/// The token under the cursor, or the running-past-the-end error.
pub open spec fn spec_peek(toks: Seq<TokenV>, pos: int) -> Result<TokenV, ParseErr> {
    if 0 <= pos < toks.len() {
        Ok(toks[pos])
    } else {
        Err(ParseErr { msg: "Unexpected end of tokens"@, pos: pos })
    }
}

/// Consume one expected keyword, or fail at the cursor.
pub open spec fn spec_expect_keyword(toks: Seq<TokenV>, pos: int, k: KeywordType) -> Result<
    int,
    ParseErr,
> {
    match spec_peek(toks, pos) {
        Err(e) => Err(e),
        Ok(t) => if t == TokenV::Keyword(k) {
            Ok(pos + 1)
        } else {
            Err(
                ParseErr {
                    msg: "Expected keyword '"@ + keywords::spec_keyword_text(k) + "'"@,
                    pos: pos,
                },
            )
        },
    }
}

/// Consume one expected punctuation symbol, or fail at the cursor.
pub open spec fn spec_expect_grammar(toks: Seq<TokenV>, pos: int, g: GrammarType) -> Result<
    int,
    ParseErr,
> {
    match spec_peek(toks, pos) {
        Err(e) => Err(e),
        Ok(t) => if t == TokenV::Grammar(g) {
            Ok(pos + 1)
        } else {
            Err(
                ParseErr {
                    msg: "Expected grammar element '"@ + grammar::spec_grammar_text(g) + "'"@,
                    pos: pos,
                },
            )
        },
    }
}

/// Consume one identifier and yield its name, or fail at the cursor.
pub open spec fn spec_expect_identifier(toks: Seq<TokenV>, pos: int) -> Result<
    (Seq<char>, int),
    ParseErr,
> {
    match spec_peek(toks, pos) {
        Err(e) => Err(e),
        Ok(t) => match t {
            TokenV::Identifier(name) => Ok((name, pos + 1)),
            _ => Err(ParseErr { msg: "Expected an identifier"@, pos: pos }),
        },
    }
}

/// Consume one string literal and yield its text, or fail at the cursor.
pub open spec fn spec_expect_string_literal(toks: Seq<TokenV>, pos: int) -> Result<
    (Seq<char>, int),
    ParseErr,
> {
    match spec_peek(toks, pos) {
        Err(e) => Err(e),
        Ok(t) => match t {
            TokenV::StringLiteral(text) => Ok((text, pos + 1)),
            _ => Err(ParseErr { msg: "Expected a string literal"@, pos: pos }),
        },
    }
}

/// Consume one integer literal, or fail at the cursor.
pub open spec fn spec_expect_integer(toks: Seq<TokenV>, pos: int) -> Result<(i64, int), ParseErr> {
    match spec_peek(toks, pos) {
        Err(e) => Err(e),
        Ok(t) => match t {
            TokenV::Integer(value) => Ok((value, pos + 1)),
            _ => Err(ParseErr { msg: "Expected an integer literal"@, pos: pos }),
        },
    }
}

/// Consume one float literal and yield its spelling, or fail at the
/// cursor.
pub open spec fn spec_expect_float(toks: Seq<TokenV>, pos: int) -> Result<
    (Seq<char>, int),
    ParseErr,
> {
    match spec_peek(toks, pos) {
        Err(e) => Err(e),
        Ok(t) => match t {
            TokenV::Float(text) => Ok((text, pos + 1)),
            _ => Err(ParseErr { msg: "Expected a float literal"@, pos: pos }),
        },
    }
}

/// Consume one expected operator, or fail at the cursor.
pub open spec fn spec_expect_operator(toks: Seq<TokenV>, pos: int, o: OperatorType) -> Result<
    int,
    ParseErr,
> {
    match spec_peek(toks, pos) {
        Err(e) => Err(e),
        Ok(t) => if t == TokenV::Operator(o) {
            Ok(pos + 1)
        } else {
            Err(
                ParseErr {
                    msg: "Expected operator '"@ + operators::spec_operator_text(o) + "'"@,
                    pos: pos,
                },
            )
        },
    }
}

/// `primary`: a column reference or a literal, one token.
pub open spec fn spec_parse_primary(toks: Seq<TokenV>, pos: int) -> Result<(ExprV, int), ParseErr> {
    match spec_peek(toks, pos) {
        Err(e) => Err(e),
        Ok(t) => match t {
            TokenV::Identifier(name) => Ok((ExprV::Column(name), pos + 1)),
            TokenV::Integer(value) => Ok((ExprV::Literal(ValueV::Int(value)), pos + 1)),
            TokenV::Float(text) => Ok((ExprV::Literal(ValueV::Float(text)), pos + 1)),
            TokenV::StringLiteral(text) => Ok((ExprV::Literal(ValueV::String(text)), pos + 1)),
            TokenV::Keyword(KeywordType::True) => Ok((ExprV::Literal(ValueV::Bool(true)), pos + 1)),
            TokenV::Keyword(KeywordType::False) => Ok(
                (ExprV::Literal(ValueV::Bool(false)), pos + 1),
            ),
            _ => Err(ParseErr { msg: "Expected column or literal"@, pos: pos }),
        },
    }
}

/// `comparison_operator`: one comparison operator token.
pub open spec fn spec_parse_comparison_operator(toks: Seq<TokenV>, pos: int) -> Result<
    (BinaryOperator, int),
    ParseErr,
> {
    match spec_peek(toks, pos) {
        Err(e) => Err(e),
        Ok(t) => match t {
            TokenV::Operator(op) => match op {
                OperatorType::Equals => Ok((BinaryOperator::Equals, pos + 1)),
                OperatorType::NotEquals => Ok((BinaryOperator::NotEquals, pos + 1)),
                OperatorType::GreaterThan => Ok((BinaryOperator::GreaterThan, pos + 1)),
                OperatorType::SmallerThan => Ok((BinaryOperator::LessThan, pos + 1)),
                OperatorType::GreaterThanOrEqual => Ok(
                    (BinaryOperator::GreaterThanOrEquals, pos + 1),
                ),
                OperatorType::SmallerThanOrEqual => Ok(
                    (BinaryOperator::LessThanOrEquals, pos + 1),
                ),
                _ => Err(
                    ParseErr {
                        msg: "Expected comparison operator, found "@
                            + operators::spec_operator_text(op),
                        pos: pos,
                    },
                ),
            },
            _ => Err(
                ParseErr {
                    msg: "Expected operator, found "@ + text::spec_token_text(t),
                    pos: pos,
                },
            ),
        },
    }
}

/// `comparison`: a primary, a comparison operator, and a primary. The
/// operands are primaries only, never nested boolean expressions.
pub open spec fn spec_parse_comparison(toks: Seq<TokenV>, pos: int) -> Result<
    (ExprV, int),
    ParseErr,
> {
    match spec_parse_primary(toks, pos) {
        Err(e) => Err(e),
        Ok((left, p1)) => match spec_parse_comparison_operator(toks, p1) {
            Err(e) => Err(e),
            Ok((operator, p2)) => match spec_parse_primary(toks, p2) {
                Err(e) => Err(e),
                Ok((right, p3)) => Ok(
                    (
                        ExprV::BinaryOp {
                            left: Box::new(left),
                            operator: operator,
                            right: Box::new(right),
                        },
                        p3,
                    ),
                ),
            },
        },
    }
}

/// The `(AND comparison)*` tail of `and_expr`, folded left onto `acc`.
pub open spec fn spec_parse_and_rest(toks: Seq<TokenV>, pos: int, acc: ExprV) -> Result<
    (ExprV, int),
    ParseErr,
>
    decreases toks.len() - pos,
{
    match spec_peek(toks, pos) {
        Err(e) => Err(e),
        Ok(t) => if t == TokenV::Keyword(KeywordType::And) {
            match spec_parse_comparison(toks, pos + 1) {
                Err(e) => Err(e),
                Ok((right, p2)) => if pos < p2 <= toks.len() {
                    spec_parse_and_rest(
                        toks,
                        p2,
                        ExprV::BinaryOp {
                            left: Box::new(acc),
                            operator: BinaryOperator::And,
                            right: Box::new(right),
                        },
                    )
                } else {
                    // a successful comparison always advances the cursor,
                    // so this arm is never the value
                    Err(ParseErr { msg: "Unexpected end of tokens"@, pos: pos })
                },
            }
        } else {
            Ok((acc, pos))
        },
    }
}

/// `and_expr`: comparisons joined left-associatively by AND.
pub open spec fn spec_parse_and_expression(toks: Seq<TokenV>, pos: int) -> Result<
    (ExprV, int),
    ParseErr,
> {
    match spec_parse_comparison(toks, pos) {
        Err(e) => Err(e),
        Ok((first, p1)) => spec_parse_and_rest(toks, p1, first),
    }
}

/// The `(OR and_expr)*` tail of `or_expr`, folded left onto `acc`.
pub open spec fn spec_parse_or_rest(toks: Seq<TokenV>, pos: int, acc: ExprV) -> Result<
    (ExprV, int),
    ParseErr,
>
    decreases toks.len() - pos,
{
    match spec_peek(toks, pos) {
        Err(e) => Err(e),
        Ok(t) => if t == TokenV::Keyword(KeywordType::Or) {
            match spec_parse_and_expression(toks, pos + 1) {
                Err(e) => Err(e),
                Ok((right, p2)) => if pos < p2 <= toks.len() {
                    spec_parse_or_rest(
                        toks,
                        p2,
                        ExprV::BinaryOp {
                            left: Box::new(acc),
                            operator: BinaryOperator::Or,
                            right: Box::new(right),
                        },
                    )
                } else {
                    // a successful and_expr always advances the cursor,
                    // so this arm is never the value
                    Err(ParseErr { msg: "Unexpected end of tokens"@, pos: pos })
                },
            }
        } else {
            Ok((acc, pos))
        },
    }
}

/// `or_expr`: and-expressions joined left-associatively by OR. OR binds
/// loosest, below AND.
pub open spec fn spec_parse_or_expression(toks: Seq<TokenV>, pos: int) -> Result<
    (ExprV, int),
    ParseErr,
> {
    match spec_parse_and_expression(toks, pos) {
        Err(e) => Err(e),
        Ok((first, p1)) => spec_parse_or_rest(toks, p1, first),
    }
}

/// Whether a keyword names an aggregate function.
pub open spec fn spec_is_aggregate_keyword(k: KeywordType) -> bool {
    k == KeywordType::Count || k == KeywordType::Sum || k == KeywordType::Avg || k
        == KeywordType::Min || k == KeywordType::Max
}

/// The aggregate function a keyword names.
pub open spec fn spec_aggregate_func(k: KeywordType) -> AggregateFunc {
    match k {
        KeywordType::Count => AggregateFunc::Count,
        KeywordType::Avg => AggregateFunc::Avg,
        KeywordType::Sum => AggregateFunc::Sum,
        KeywordType::Min => AggregateFunc::Min,
        _ => AggregateFunc::Max,
    }
}

/// `aggregate`: an aggregate keyword, `(`, then `*` (argument `None`) or
/// a column identifier, then `)`. The parser accepts `*` for any
/// aggregate; rejecting it outside COUNT is left to later stages.
pub open spec fn spec_parse_aggregate(toks: Seq<TokenV>, pos: int) -> Result<
    (SelectItemV, int),
    ParseErr,
> {
    match spec_peek(toks, pos) {
        Err(e) => Err(e),
        Ok(t) => match t {
            TokenV::Keyword(k) => if spec_is_aggregate_keyword(k) {
                spec_parse_aggregate_body(toks, pos + 1, spec_aggregate_func(k))
            } else {
                Err(
                    ParseErr {
                        msg: "Expected one of COUNT, SUM, AVG, MIN, MAX, found "@
                            + text::spec_token_text(t),
                        pos: pos + 1,
                    },
                )
            },
            _ => Err(
                ParseErr {
                    msg: "Expected one of COUNT, SUM, AVG, MIN, MAX, found "@
                        + text::spec_token_text(t),
                    pos: pos + 1,
                },
            ),
        },
    }
}

/// The parenthesized argument of an aggregate, after its keyword.
pub open spec fn spec_parse_aggregate_body(
    toks: Seq<TokenV>,
    pos: int,
    func: AggregateFunc,
) -> Result<(SelectItemV, int), ParseErr> {
    match spec_expect_grammar(toks, pos, GrammarType::OpenParen) {
        Err(e) => Err(e),
        Ok(p1) => match spec_peek(toks, p1) {
            Err(e) => Err(e),
            Ok(t) => if t == TokenV::Grammar(GrammarType::Asterisk) {
                match spec_expect_grammar(toks, p1 + 1, GrammarType::CloseParen) {
                    Err(e) => Err(e),
                    Ok(p2) => Ok((SelectItemV::Aggregate { func: func, expr: None }, p2)),
                }
            } else {
                match spec_expect_identifier(toks, p1) {
                    Err(e) => Err(e),
                    Ok((col, p2)) => match spec_expect_grammar(toks, p2, GrammarType::CloseParen) {
                        Err(e) => Err(e),
                        Ok(p3) => Ok(
                            (
                                SelectItemV::Aggregate {
                                    func: func,
                                    expr: Some(Box::new(ExprV::Column(col))),
                                },
                                p3,
                            ),
                        ),
                    },
                }
            },
        },
    }
}

/// `select_item`: `*`, an aggregate call, or a bare column identifier.
pub open spec fn spec_parse_select_item(toks: Seq<TokenV>, pos: int) -> Result<
    (SelectItemV, int),
    ParseErr,
> {
    match spec_peek(toks, pos) {
        Err(e) => Err(e),
        Ok(t) => match t {
            TokenV::Grammar(GrammarType::Asterisk) => Ok((SelectItemV::Wildcard, pos + 1)),
            TokenV::Keyword(k) => if spec_is_aggregate_keyword(k) {
                spec_parse_aggregate(toks, pos)
            } else {
                Err(
                    ParseErr {
                        msg: "Expected column, *, or aggregate, found "@ + text::spec_token_text(t),
                        pos: pos,
                    },
                )
            },
            TokenV::Identifier(name) => Ok((SelectItemV::Column(name), pos + 1)),
            _ => Err(
                ParseErr {
                    msg: "Expected column, *, or aggregate, found "@ + text::spec_token_text(t),
                    pos: pos,
                },
            ),
        },
    }
}

/// `select_list`: select items separated by commas, ended by FROM, with
/// the items parsed so far in `acc`. Any other token after an item is an
/// error.
pub open spec fn spec_parse_columns_rest(
    toks: Seq<TokenV>,
    pos: int,
    acc: Seq<SelectItemV>,
) -> Result<(Seq<SelectItemV>, int), ParseErr>
    decreases toks.len() - pos,
{
    match spec_parse_select_item(toks, pos) {
        Err(e) => Err(e),
        Ok((item, p1)) => match spec_peek(toks, p1) {
            Err(e) => Err(e),
            Ok(t) => if t == TokenV::Grammar(GrammarType::Comma) {
                if pos < p1 + 1 <= toks.len() + 1 {
                    spec_parse_columns_rest(toks, p1 + 1, acc.push(item))
                } else {
                    // a successful select item always advances the cursor,
                    // so this arm is never the value
                    Err(ParseErr { msg: "Unexpected end of tokens"@, pos: pos })
                }
            } else if t == TokenV::Keyword(KeywordType::From) {
                Ok((acc.push(item), p1))
            } else {
                Err(
                    ParseErr {
                        msg: "Expected comma or FROM, "@ + text::spec_token_text(t) + " found"@,
                        pos: p1,
                    },
                )
            },
        },
    }
}

/// `FROM source`: the keyword, then a quoted string literal naming the
/// data source. A bare identifier is rejected here.
pub open spec fn spec_parse_from(toks: Seq<TokenV>, pos: int) -> Result<(Seq<char>, int), ParseErr> {
    match spec_expect_keyword(toks, pos, KeywordType::From) {
        Err(e) => Err(e),
        Ok(p1) => match spec_expect_string_literal(toks, p1) {
            Err(e) => Err(
                ParseErr { msg: "Expected string literal after FROM: "@ + e.msg, pos: e.pos },
            ),
            Ok((source, p2)) => Ok((source, p2)),
        },
    }
}

/// `[WHERE or_expr]`: absent when the next token is not WHERE, with no
/// tokens consumed.
pub open spec fn spec_parse_where(toks: Seq<TokenV>, pos: int) -> Result<
    (Option<ExprV>, int),
    ParseErr,
> {
    match spec_peek(toks, pos) {
        Err(e) => Err(e),
        Ok(t) => if t != TokenV::Keyword(KeywordType::Where) {
            Ok((None, pos))
        } else {
            match spec_parse_or_expression(toks, pos + 1) {
                Err(e) => Err(e),
                Ok((expr, p1)) => Ok((Some(expr), p1)),
            }
        },
    }
}

/// The comma-separated column list of GROUP BY, with the columns parsed
/// so far in `acc`.
pub open spec fn spec_parse_group_items(toks: Seq<TokenV>, pos: int, acc: Seq<ExprV>) -> Result<
    (Seq<ExprV>, int),
    ParseErr,
>
    decreases toks.len() - pos,
{
    match spec_expect_identifier(toks, pos) {
        Err(e) => Err(e),
        Ok((name, p1)) => match spec_peek(toks, p1) {
            Err(e) => Err(e),
            Ok(t) => if t == TokenV::Grammar(GrammarType::Comma) {
                if pos < p1 + 1 <= toks.len() + 1 {
                    spec_parse_group_items(toks, p1 + 1, acc.push(ExprV::Column(name)))
                } else {
                    // an identifier always advances the cursor, so this
                    // arm is never the value
                    Err(ParseErr { msg: "Unexpected end of tokens"@, pos: pos })
                }
            } else {
                Ok((acc.push(ExprV::Column(name)), p1))
            },
        },
    }
}

/// `[GROUP BY column_list]`: absent when the next token is not GROUP,
/// with no tokens consumed.
pub open spec fn spec_parse_group_by(toks: Seq<TokenV>, pos: int) -> Result<
    (Option<Seq<ExprV>>, int),
    ParseErr,
> {
    match spec_peek(toks, pos) {
        Err(e) => Err(e),
        Ok(t) => if t != TokenV::Keyword(KeywordType::Group) {
            Ok((None, pos))
        } else {
            match spec_expect_keyword(toks, pos + 1, KeywordType::By) {
                Err(e) => Err(e),
                Ok(p1) => match spec_parse_group_items(toks, p1, Seq::empty()) {
                    Err(e) => Err(e),
                    Ok((items, p2)) => Ok((Some(items), p2)),
                },
            }
        },
    }
}

/// The comma-separated item list of ORDER BY, with the items parsed so
/// far in `acc`. Each item is a column, then an optional ASC or DESC,
/// ascending when omitted.
pub open spec fn spec_parse_order_items(
    toks: Seq<TokenV>,
    pos: int,
    acc: Seq<OrderByItemV>,
) -> Result<(Seq<OrderByItemV>, int), ParseErr>
    decreases toks.len() - pos,
{
    match spec_expect_identifier(toks, pos) {
        Err(e) => Err(e),
        Ok((name, p1)) => match spec_peek(toks, p1) {
            Err(e) => Err(e),
            Ok(t) => {
                let (asc, p2) = if t == TokenV::Keyword(KeywordType::Asc) {
                    (true, p1 + 1)
                } else if t == TokenV::Keyword(KeywordType::Desc) {
                    (false, p1 + 1)
                } else {
                    (true, p1)
                };
                let acc2 = acc.push(OrderByItemV { expr: ExprV::Column(name), asc: asc });
                match spec_peek(toks, p2) {
                    Err(e) => Err(e),
                    Ok(t2) => if t2 == TokenV::Grammar(GrammarType::Comma) {
                        if pos < p2 + 1 <= toks.len() + 1 {
                            spec_parse_order_items(toks, p2 + 1, acc2)
                        } else {
                            // an identifier always advances the cursor, so
                            // this arm is never the value
                            Err(ParseErr { msg: "Unexpected end of tokens"@, pos: pos })
                        }
                    } else {
                        Ok((acc2, p2))
                    },
                }
            },
        },
    }
}

/// `[ORDER BY order_list]`: absent when the next token is not ORDER,
/// with no tokens consumed.
pub open spec fn spec_parse_order_by(toks: Seq<TokenV>, pos: int) -> Result<
    (Option<Seq<OrderByItemV>>, int),
    ParseErr,
> {
    match spec_peek(toks, pos) {
        Err(e) => Err(e),
        Ok(t) => if t != TokenV::Keyword(KeywordType::Order) {
            Ok((None, pos))
        } else {
            match spec_expect_keyword(toks, pos + 1, KeywordType::By) {
                Err(e) => Err(e),
                Ok(p1) => match spec_parse_order_items(toks, p1, Seq::empty()) {
                    Err(e) => Err(e),
                    Ok((items, p2)) => Ok((Some(items), p2)),
                },
            }
        },
    }
}

/// `select_statement`: SELECT, the projection list, FROM and its source,
/// then the optional WHERE, GROUP BY and ORDER BY clauses in that order.
pub open spec fn spec_parse_select(toks: Seq<TokenV>, pos: int) -> Result<
    (SelectStatementV, int),
    ParseErr,
> {
    match spec_expect_keyword(toks, pos, KeywordType::Select) {
        Err(e) => Err(e),
        Ok(p1) => match spec_parse_columns_rest(toks, p1, Seq::empty()) {
            Err(e) => Err(e),
            Ok((columns, p2)) => match spec_parse_from(toks, p2) {
                Err(e) => Err(e),
                Ok((source, p3)) => match spec_parse_where(toks, p3) {
                    Err(e) => Err(e),
                    Ok((where_clause, p4)) => match spec_parse_group_by(toks, p4) {
                        Err(e) => Err(e),
                        Ok((group_by, p5)) => match spec_parse_order_by(toks, p5) {
                            Err(e) => Err(e),
                            Ok((order_by, p6)) => Ok(
                                (
                                    SelectStatementV {
                                        columns: columns,
                                        from: Some(source),
                                        where_clause: where_clause,
                                        group_by: group_by,
                                        order_by: order_by,
                                    },
                                    p6,
                                ),
                            ),
                        },
                    },
                },
            },
        },
    }
}

/// `statement`: a SELECT statement; anything else is rejected at once.
pub open spec fn spec_parse_statement(toks: Seq<TokenV>, pos: int) -> Result<
    (StatementV, int),
    ParseErr,
> {
    match spec_peek(toks, pos) {
        Err(e) => Err(e),
        Ok(t) => if t == TokenV::Keyword(KeywordType::Select) {
            match spec_parse_select(toks, pos) {
                Err(e) => Err(e),
                Ok((s, p1)) => Ok((StatementV::Select(s), p1)),
            }
        } else {
            Err(ParseErr { msg: "Expected SELECT keyword"@, pos: pos })
        },
    }
}

/// Whether an executable error value carries exactly the message and the
/// position of a model error.
pub open spec fn spec_err_matches(e: ParserError, s: ParseErr) -> bool {
    e.message@ == s.msg && e.position as int == s.pos
}

/// Pushing onto a vector pushes the deep view of the element onto the
/// vector's deep view.
proof fn lemma_push_deep_view<T: DeepView>(next: Vec<T>, prev: Vec<T>, x: T)
    requires
        next@ == prev@.push(x),
    ensures
        next.deep_view() == prev.deep_view().push(x.deep_view()),
{
    assert forall|j: int| 0 <= j < next@.len() implies next.deep_view()[j]
        == prev.deep_view().push(x.deep_view())[j] by {
        if j < prev@.len() {
            assert(next@[j] == prev@[j]);
        } else {
            assert(next@[j] == x);
        }
    }
    assert(next.deep_view() =~= prev.deep_view().push(x.deep_view()));
}

/// The parser: an explicit cursor over an owned token sequence. Each
/// method implements one grammar production and returns exactly what the
/// production's spec function says, or the error it says.
pub struct Parser {
    tokens: Vec<Token>,
    position: usize,
}

impl Parser {
    /// The token sequence being parsed, as token values.
    pub closed spec fn toks(&self) -> Seq<TokenV> {
        self.tokens.deep_view()
    }

    /// The cursor position.
    pub closed spec fn pos(&self) -> int {
        self.position as int
    }

    /// The cursor never runs past the end of the token sequence.
    pub closed spec fn wf(&self) -> bool {
        self.position <= self.tokens@.len()
    }

    pub fn new(tokens: Vec<Token>) -> (r: Parser)
        ensures
            r.toks() == tokens.deep_view(),
            r.pos() == 0,
            r.wf(),
    {
        Parser { tokens, position: 0 }
    }

    /// The token under the cursor, or the running-past-the-end error.
    fn peek(&self) -> (r: Result<&Token, ParserError>)
        requires
            self.wf(),
        ensures
            match r {
                Ok(t) => spec_peek(self.toks(), self.pos()) == Ok::<TokenV, ParseErr>(t@),
                Err(e) => spec_peek(self.toks(), self.pos()) is Err && spec_err_matches(
                    e,
                    spec_peek(self.toks(), self.pos())->Err_0,
                ),
            },
    {
        if self.position < self.tokens.len() {
            Ok(&self.tokens[self.position])
        } else {
            Err(
                ParserError {
                    message: String::from_str("Unexpected end of tokens"),
                    position: self.position,
                },
            )
        }
    }

    /// Move the cursor past the token it is on.
    fn advance(&mut self)
        requires
            old(self).wf(),
            old(self).pos() < old(self).toks().len(),
        ensures
            final(self).wf(),
            final(self).toks() == old(self).toks(),
            final(self).pos() == old(self).pos() + 1,
    {
        let n = self.tokens.len();
        proof {
            assert(self.position < n);
        }
        self.position = self.position + 1;
    }

    fn expect_keyword(&mut self, kw: KeywordType) -> (r: Result<(), ParserError>)
        requires
            old(self).wf(),
        ensures
            final(self).wf(),
            final(self).toks() == old(self).toks(),
            match r {
                Ok(_) => spec_expect_keyword(old(self).toks(), old(self).pos(), kw) == Ok::<
                    int,
                    ParseErr,
                >(final(self).pos()) && final(self).pos() == old(self).pos() + 1,
                Err(e) => ({
                    let s = spec_expect_keyword(old(self).toks(), old(self).pos(), kw);
                    s is Err && spec_err_matches(e, s->Err_0) && final(self).pos() == old(self).pos()
                }),
            },
    {
        let found = match self.peek() {
            Err(e) => {
                return Err(e);
            },
            Ok(t) => match t {
                Token::Keyword(k) => *k == kw,
                _ => false,
            },
        };
        if found {
            self.advance();
            Ok(())
        } else {
            let mut message = String::from_str("Expected keyword '");
            message.append(keywords::keyword_text(&kw));
            message.append("'");
            Err(ParserError { message, position: self.position })
        }
    }

    fn expect_grammar(&mut self, g: GrammarType) -> (r: Result<(), ParserError>)
        requires
            old(self).wf(),
        ensures
            final(self).wf(),
            final(self).toks() == old(self).toks(),
            match r {
                Ok(_) => spec_expect_grammar(old(self).toks(), old(self).pos(), g) == Ok::<
                    int,
                    ParseErr,
                >(final(self).pos()) && final(self).pos() == old(self).pos() + 1,
                Err(e) => ({
                    let s = spec_expect_grammar(old(self).toks(), old(self).pos(), g);
                    s is Err && spec_err_matches(e, s->Err_0) && final(self).pos() == old(self).pos()
                }),
            },
    {
        let found = match self.peek() {
            Err(e) => {
                return Err(e);
            },
            Ok(t) => match t {
                Token::Grammar(got) => *got == g,
                _ => false,
            },
        };
        if found {
            self.advance();
            Ok(())
        } else {
            let mut message = String::from_str("Expected grammar element '");
            message.append(grammar::grammar_text(&g));
            message.append("'");
            Err(ParserError { message, position: self.position })
        }
    }

    fn expect_identifier(&mut self) -> (r: Result<String, ParserError>)
        requires
            old(self).wf(),
        ensures
            final(self).wf(),
            final(self).toks() == old(self).toks(),
            match r {
                Ok(name) => spec_expect_identifier(old(self).toks(), old(self).pos()) == Ok::<
                    (Seq<char>, int),
                    ParseErr,
                >((name@, final(self).pos())) && final(self).pos() == old(self).pos() + 1,
                Err(e) => ({
                    let s = spec_expect_identifier(old(self).toks(), old(self).pos());
                    s is Err && spec_err_matches(e, s->Err_0) && final(self).pos() == old(self).pos()
                }),
            },
    {
        let name: Option<String> = match self.peek() {
            Err(e) => {
                return Err(e);
            },
            Ok(t) => match t {
                Token::Identifier(name) => Some(name.clone()),
                _ => None,
            },
        };
        match name {
            Some(name) => {
                self.advance();
                Ok(name)
            },
            None => Err(
                ParserError {
                    message: String::from_str("Expected an identifier"),
                    position: self.position,
                },
            ),
        }
    }

    fn expect_string_literal(&mut self) -> (r: Result<String, ParserError>)
        requires
            old(self).wf(),
        ensures
            final(self).wf(),
            final(self).toks() == old(self).toks(),
            match r {
                Ok(text) => spec_expect_string_literal(old(self).toks(), old(self).pos()) == Ok::<
                    (Seq<char>, int),
                    ParseErr,
                >((text@, final(self).pos())) && final(self).pos() == old(self).pos() + 1,
                Err(e) => ({
                    let s = spec_expect_string_literal(old(self).toks(), old(self).pos());
                    s is Err && spec_err_matches(e, s->Err_0) && final(self).pos() == old(self).pos()
                }),
            },
    {
        let text: Option<String> = match self.peek() {
            Err(e) => {
                return Err(e);
            },
            Ok(t) => match t {
                Token::StringLiteral(text) => Some(text.clone()),
                _ => None,
            },
        };
        match text {
            Some(text) => {
                self.advance();
                Ok(text)
            },
            None => Err(
                ParserError {
                    message: String::from_str("Expected a string literal"),
                    position: self.position,
                },
            ),
        }
    }

    fn expect_integer(&mut self) -> (r: Result<i64, ParserError>)
        requires
            old(self).wf(),
        ensures
            final(self).wf(),
            final(self).toks() == old(self).toks(),
            match r {
                Ok(value) => spec_expect_integer(old(self).toks(), old(self).pos()) == Ok::<
                    (i64, int),
                    ParseErr,
                >((value, final(self).pos())) && final(self).pos() == old(self).pos() + 1,
                Err(e) => ({
                    let s = spec_expect_integer(old(self).toks(), old(self).pos());
                    s is Err && spec_err_matches(e, s->Err_0) && final(self).pos() == old(self).pos()
                }),
            },
    {
        let value: Option<i64> = match self.peek() {
            Err(e) => {
                return Err(e);
            },
            Ok(t) => match t {
                Token::Integer(value) => Some(*value),
                _ => None,
            },
        };
        match value {
            Some(value) => {
                self.advance();
                Ok(value)
            },
            None => Err(
                ParserError {
                    message: String::from_str("Expected an integer literal"),
                    position: self.position,
                },
            ),
        }
    }

    fn expect_float(&mut self) -> (r: Result<String, ParserError>)
        requires
            old(self).wf(),
        ensures
            final(self).wf(),
            final(self).toks() == old(self).toks(),
            match r {
                Ok(text) => spec_expect_float(old(self).toks(), old(self).pos()) == Ok::<
                    (Seq<char>, int),
                    ParseErr,
                >((text@, final(self).pos())) && final(self).pos() == old(self).pos() + 1,
                Err(e) => ({
                    let s = spec_expect_float(old(self).toks(), old(self).pos());
                    s is Err && spec_err_matches(e, s->Err_0) && final(self).pos() == old(self).pos()
                }),
            },
    {
        let text: Option<String> = match self.peek() {
            Err(e) => {
                return Err(e);
            },
            Ok(t) => match t {
                Token::Float(text) => Some(text.clone()),
                _ => None,
            },
        };
        match text {
            Some(text) => {
                self.advance();
                Ok(text)
            },
            None => Err(
                ParserError {
                    message: String::from_str("Expected a float literal"),
                    position: self.position,
                },
            ),
        }
    }

    fn expect_operator(&mut self, operator: OperatorType) -> (r: Result<(), ParserError>)
        requires
            old(self).wf(),
        ensures
            final(self).wf(),
            final(self).toks() == old(self).toks(),
            match r {
                Ok(_) => spec_expect_operator(old(self).toks(), old(self).pos(), operator) == Ok::<
                    int,
                    ParseErr,
                >(final(self).pos()) && final(self).pos() == old(self).pos() + 1,
                Err(e) => ({
                    let s = spec_expect_operator(old(self).toks(), old(self).pos(), operator);
                    s is Err && spec_err_matches(e, s->Err_0) && final(self).pos() == old(self).pos()
                }),
            },
    {
        let found = match self.peek() {
            Err(e) => {
                return Err(e);
            },
            Ok(t) => match t {
                Token::Operator(got) => *got == operator,
                _ => false,
            },
        };
        if found {
            self.advance();
            Ok(())
        } else {
            let mut message = String::from_str("Expected operator '");
            message.append(operators::operator_text(&operator));
            message.append("'");
            Err(ParserError { message, position: self.position })
        }
    }

    fn parse_primary(&mut self) -> (r: Result<Expr, ParserError>)
        requires
            old(self).wf(),
        ensures
            final(self).wf(),
            final(self).toks() == old(self).toks(),
            match r {
                Ok(expr) => spec_parse_primary(old(self).toks(), old(self).pos()) == Ok::<
                    (ExprV, int),
                    ParseErr,
                >((expr@, final(self).pos())) && final(self).pos() == old(self).pos() + 1,
                Err(e) => ({
                    let s = spec_parse_primary(old(self).toks(), old(self).pos());
                    s is Err && spec_err_matches(e, s->Err_0)
                }),
            },
    {
        let is_identifier = match self.peek() {
            Err(e) => {
                return Err(e);
            },
            Ok(t) => matches!(t, Token::Identifier(_)),
        };
        if is_identifier {
            let identifier = match self.expect_identifier() {
                Err(e) => {
                    return Err(e);
                },
                Ok(name) => name,
            };
            return Ok(Expr::Column(identifier));
        }
        let is_integer = match self.peek() {
            Err(_) => false,
            Ok(t) => matches!(t, Token::Integer(_)),
        };
        if is_integer {
            let value = match self.expect_integer() {
                Err(e) => {
                    return Err(e);
                },
                Ok(value) => value,
            };
            return Ok(Expr::Literal(Value::Int(value)));
        }
        let is_float = match self.peek() {
            Err(_) => false,
            Ok(t) => matches!(t, Token::Float(_)),
        };
        if is_float {
            let value = match self.expect_float() {
                Err(e) => {
                    return Err(e);
                },
                Ok(text) => text,
            };
            return Ok(Expr::Literal(Value::Float(value)));
        }
        let is_string = match self.peek() {
            Err(_) => false,
            Ok(t) => matches!(t, Token::StringLiteral(_)),
        };
        if is_string {
            let value = match self.expect_string_literal() {
                Err(e) => {
                    return Err(e);
                },
                Ok(text) => text,
            };
            return Ok(Expr::Literal(Value::String(value)));
        }
        let is_true = match self.peek() {
            Err(_) => false,
            Ok(t) => matches!(t, Token::Keyword(KeywordType::True)),
        };
        if is_true {
            self.advance();
            return Ok(Expr::Literal(Value::Bool(true)));
        }
        let is_false = match self.peek() {
            Err(_) => false,
            Ok(t) => matches!(t, Token::Keyword(KeywordType::False)),
        };
        if is_false {
            self.advance();
            return Ok(Expr::Literal(Value::Bool(false)));
        }
        Err(
            ParserError {
                message: String::from_str("Expected column or literal"),
                position: self.position,
            },
        )
    }

    fn parse_comparison_operator(&mut self) -> (r: Result<BinaryOperator, ParserError>)
        requires
            old(self).wf(),
        ensures
            final(self).wf(),
            final(self).toks() == old(self).toks(),
            match r {
                Ok(op) => spec_parse_comparison_operator(old(self).toks(), old(self).pos()) == Ok::<
                    (BinaryOperator, int),
                    ParseErr,
                >((op, final(self).pos())) && final(self).pos() == old(self).pos() + 1,
                Err(e) => ({
                    let s = spec_parse_comparison_operator(old(self).toks(), old(self).pos());
                    s is Err && spec_err_matches(e, s->Err_0)
                }),
            },
    {
        let op: Option<OperatorType> = match self.peek() {
            Err(e) => {
                return Err(e);
            },
            Ok(t) => match t {
                Token::Operator(o) => Some(*o),
                _ => None,
            },
        };
        match op {
            Some(o) => {
                let mapped: Option<BinaryOperator> = match o {
                    OperatorType::Equals => Some(BinaryOperator::Equals),
                    OperatorType::NotEquals => Some(BinaryOperator::NotEquals),
                    OperatorType::GreaterThan => Some(BinaryOperator::GreaterThan),
                    OperatorType::SmallerThan => Some(BinaryOperator::LessThan),
                    OperatorType::GreaterThanOrEqual => Some(BinaryOperator::GreaterThanOrEquals),
                    OperatorType::SmallerThanOrEqual => Some(BinaryOperator::LessThanOrEquals),
                    _ => None,
                };
                match mapped {
                    Some(operator) => {
                        self.advance();
                        Ok(operator)
                    },
                    None => {
                        let mut message = String::from_str("Expected comparison operator, found ");
                        message.append(operators::operator_text(&o));
                        Err(ParserError { message, position: self.position })
                    },
                }
            },
            None => {
                let message = match self.peek() {
                    Ok(t) => {
                        let mut m = String::from_str("Expected operator, found ");
                        let shown = text::token_text(t);
                        m.append(shown.as_str());
                        m
                    },
                    Err(_) => {
                        proof {
                            assert(false);
                        }
                        String::new()
                    },
                };
                Err(ParserError { message, position: self.position })
            },
        }
    }

    fn parse_comparison(&mut self) -> (r: Result<Expr, ParserError>)
        requires
            old(self).wf(),
        ensures
            final(self).wf(),
            final(self).toks() == old(self).toks(),
            match r {
                Ok(expr) => spec_parse_comparison(old(self).toks(), old(self).pos()) == Ok::<
                    (ExprV, int),
                    ParseErr,
                >((expr@, final(self).pos())) && old(self).pos() < final(self).pos() <= old(self).toks().len(),
                Err(e) => ({
                    let s = spec_parse_comparison(old(self).toks(), old(self).pos());
                    s is Err && spec_err_matches(e, s->Err_0)
                }),
            },
    {
        let left = match self.parse_primary() {
            Err(e) => {
                return Err(e);
            },
            Ok(expr) => expr,
        };
        let operator = match self.parse_comparison_operator() {
            Err(e) => {
                return Err(e);
            },
            Ok(op) => op,
        };
        let right = match self.parse_primary() {
            Err(e) => {
                return Err(e);
            },
            Ok(expr) => expr,
        };
        Ok(Expr::BinaryOp { left: Box::new(left), operator, right: Box::new(right) })
    }

    fn parse_and_expression(&mut self) -> (r: Result<Expr, ParserError>)
        requires
            old(self).wf(),
        ensures
            final(self).wf(),
            final(self).toks() == old(self).toks(),
            match r {
                Ok(expr) => spec_parse_and_expression(old(self).toks(), old(self).pos()) == Ok::<
                    (ExprV, int),
                    ParseErr,
                >((expr@, final(self).pos())) && old(self).pos() < final(self).pos() <= old(self).toks().len(),
                Err(e) => ({
                    let s = spec_parse_and_expression(old(self).toks(), old(self).pos());
                    s is Err && spec_err_matches(e, s->Err_0)
                }),
            },
    {
        let ghost toks0 = old(self).toks();
        let ghost p0 = old(self).pos();
        let mut left = match self.parse_comparison() {
            Err(e) => {
                return Err(e);
            },
            Ok(expr) => expr,
        };
        loop
            invariant
                self.wf(),
                toks0 == old(self).toks(),
                p0 == old(self).pos(),
                self.toks() == toks0,
                p0 < self.pos() <= toks0.len(),
                spec_parse_and_expression(toks0, p0) == spec_parse_and_rest(
                    toks0,
                    self.pos(),
                    left@,
                ),
            decreases toks0.len() - self.pos(),
        {
            let is_and = match self.peek() {
                Err(e) => {
                    return Err(e);
                },
                Ok(t) => matches!(t, Token::Keyword(KeywordType::And)),
            };
            if is_and {
                self.advance();
                let right = match self.parse_comparison() {
                    Err(e) => {
                        return Err(e);
                    },
                    Ok(expr) => expr,
                };
                left = Expr::BinaryOp {
                    left: Box::new(left),
                    operator: BinaryOperator::And,
                    right: Box::new(right),
                };
            } else {
                return Ok(left);
            }
        }
    }

    fn parse_or_expression(&mut self) -> (r: Result<Expr, ParserError>)
        requires
            old(self).wf(),
        ensures
            final(self).wf(),
            final(self).toks() == old(self).toks(),
            match r {
                Ok(expr) => spec_parse_or_expression(old(self).toks(), old(self).pos()) == Ok::<
                    (ExprV, int),
                    ParseErr,
                >((expr@, final(self).pos())) && old(self).pos() < final(self).pos() <= old(self).toks().len(),
                Err(e) => ({
                    let s = spec_parse_or_expression(old(self).toks(), old(self).pos());
                    s is Err && spec_err_matches(e, s->Err_0)
                }),
            },
    {
        let ghost toks0 = old(self).toks();
        let ghost p0 = old(self).pos();
        let mut left = match self.parse_and_expression() {
            Err(e) => {
                return Err(e);
            },
            Ok(expr) => expr,
        };
        loop
            invariant
                self.wf(),
                toks0 == old(self).toks(),
                p0 == old(self).pos(),
                self.toks() == toks0,
                p0 < self.pos() <= toks0.len(),
                spec_parse_or_expression(toks0, p0) == spec_parse_or_rest(
                    toks0,
                    self.pos(),
                    left@,
                ),
            decreases toks0.len() - self.pos(),
        {
            let is_or = match self.peek() {
                Err(e) => {
                    return Err(e);
                },
                Ok(t) => matches!(t, Token::Keyword(KeywordType::Or)),
            };
            if is_or {
                self.advance();
                let right = match self.parse_and_expression() {
                    Err(e) => {
                        return Err(e);
                    },
                    Ok(expr) => expr,
                };
                left = Expr::BinaryOp {
                    left: Box::new(left),
                    operator: BinaryOperator::Or,
                    right: Box::new(right),
                };
            } else {
                return Ok(left);
            }
        }
    }

    /// Whether a keyword names an aggregate function.
    fn is_aggregate_keyword(&self, kw: &KeywordType) -> (r: bool)
        ensures
            r == spec_is_aggregate_keyword(*kw),
    {
        matches!(
            kw,
            KeywordType::Count
                | KeywordType::Sum
                | KeywordType::Avg
                | KeywordType::Min
                | KeywordType::Max
        )
    }

    fn parse_aggregate(&mut self) -> (r: Result<SelectItem, ParserError>)
        requires
            old(self).wf(),
        ensures
            final(self).wf(),
            final(self).toks() == old(self).toks(),
            match r {
                Ok(item) => spec_parse_aggregate(old(self).toks(), old(self).pos()) == Ok::<
                    (SelectItemV, int),
                    ParseErr,
                >((item@, final(self).pos())) && old(self).pos() < final(self).pos() <= old(self).toks().len(),
                Err(e) => ({
                    let s = spec_parse_aggregate(old(self).toks(), old(self).pos());
                    s is Err && spec_err_matches(e, s->Err_0)
                }),
            },
    {
        let func: Option<AggregateFunc> = match self.peek() {
            Err(e) => {
                return Err(e);
            },
            Ok(t) => match t {
                Token::Keyword(KeywordType::Count) => Some(AggregateFunc::Count),
                Token::Keyword(KeywordType::Avg) => Some(AggregateFunc::Avg),
                Token::Keyword(KeywordType::Sum) => Some(AggregateFunc::Sum),
                Token::Keyword(KeywordType::Min) => Some(AggregateFunc::Min),
                Token::Keyword(KeywordType::Max) => Some(AggregateFunc::Max),
                _ => None,
            },
        };
        let func = match func {
            Some(func) => func,
            None => {
                let message = match self.peek() {
                    Ok(t) => {
                        let mut m = String::from_str(
                            "Expected one of COUNT, SUM, AVG, MIN, MAX, found ",
                        );
                        let shown = text::token_text(t);
                        m.append(shown.as_str());
                        m
                    },
                    Err(_) => {
                        proof {
                            assert(false);
                        }
                        String::new()
                    },
                };
                let n = self.tokens.len();
                proof {
                    assert(self.position < n);
                }
                return Err(ParserError { message, position: self.position + 1 });
            },
        };
        self.advance();
        match self.expect_grammar(GrammarType::OpenParen) {
            Err(e) => {
                return Err(e);
            },
            Ok(_) => {},
        }
        let is_star = match self.peek() {
            Err(e) => {
                return Err(e);
            },
            Ok(t) => matches!(t, Token::Grammar(GrammarType::Asterisk)),
        };
        let expr: Option<Box<Expr>> = if is_star {
            self.advance();
            None
        } else {
            let col = match self.expect_identifier() {
                Err(e) => {
                    return Err(e);
                },
                Ok(name) => name,
            };
            Some(Box::new(Expr::Column(col)))
        };
        match self.expect_grammar(GrammarType::CloseParen) {
            Err(e) => {
                return Err(e);
            },
            Ok(_) => {},
        }
        Ok(SelectItem::Aggregate { func, expr })
    }

    fn parse_select_item(&mut self) -> (r: Result<SelectItem, ParserError>)
        requires
            old(self).wf(),
        ensures
            final(self).wf(),
            final(self).toks() == old(self).toks(),
            match r {
                Ok(item) => spec_parse_select_item(old(self).toks(), old(self).pos()) == Ok::<
                    (SelectItemV, int),
                    ParseErr,
                >((item@, final(self).pos())) && old(self).pos() < final(self).pos() <= old(self).toks().len(),
                Err(e) => ({
                    let s = spec_parse_select_item(old(self).toks(), old(self).pos());
                    s is Err && spec_err_matches(e, s->Err_0)
                }),
            },
    {
        let is_star = match self.peek() {
            Err(e) => {
                return Err(e);
            },
            Ok(t) => matches!(t, Token::Grammar(GrammarType::Asterisk)),
        };
        if is_star {
            self.advance();
            return Ok(SelectItem::Wildcard);
        }
        let is_aggregate = match self.peek() {
            Err(_) => false,
            Ok(t) => match t {
                Token::Keyword(k) => self.is_aggregate_keyword(k),
                _ => false,
            },
        };
        if is_aggregate {
            return self.parse_aggregate();
        }
        let is_identifier = match self.peek() {
            Err(_) => false,
            Ok(t) => matches!(t, Token::Identifier(_)),
        };
        if is_identifier {
            let name = match self.expect_identifier() {
                Err(e) => {
                    return Err(e);
                },
                Ok(name) => name,
            };
            return Ok(SelectItem::Column(name));
        }
        let message = match self.peek() {
            Ok(t) => {
                let mut m = String::from_str("Expected column, *, or aggregate, found ");
                let shown = text::token_text(t);
                m.append(shown.as_str());
                m
            },
            Err(_) => {
                proof {
                    assert(false);
                }
                String::new()
            },
        };
        Err(ParserError { message, position: self.position })
    }

    fn parse_columns(&mut self) -> (r: Result<Vec<SelectItem>, ParserError>)
        requires
            old(self).wf(),
        ensures
            final(self).wf(),
            final(self).toks() == old(self).toks(),
            match r {
                Ok(items) => spec_parse_columns_rest(
                    old(self).toks(),
                    old(self).pos(),
                    Seq::empty(),
                ) == Ok::<(Seq<SelectItemV>, int), ParseErr>((items.deep_view(), final(self).pos()))
                    && old(self).pos() < final(self).pos() <= old(self).toks().len(),
                Err(e) => ({
                    let s = spec_parse_columns_rest(old(self).toks(), old(self).pos(), Seq::empty());
                    s is Err && spec_err_matches(e, s->Err_0)
                }),
            },
    {
        let ghost toks0 = old(self).toks();
        let ghost p0 = old(self).pos();
        let mut selected_items: Vec<SelectItem> = Vec::new();
        proof {
            assert(selected_items.deep_view() =~= Seq::<SelectItemV>::empty());
        }
        loop
            invariant
                self.wf(),
                toks0 == old(self).toks(),
                p0 == old(self).pos(),
                self.toks() == toks0,
                p0 <= self.pos() <= toks0.len(),
                spec_parse_columns_rest(toks0, p0, Seq::empty()) == spec_parse_columns_rest(
                    toks0,
                    self.pos(),
                    selected_items.deep_view(),
                ),
            decreases toks0.len() - self.pos(),
        {
            let item = match self.parse_select_item() {
                Err(e) => {
                    return Err(e);
                },
                Ok(item) => item,
            };
            let ghost prev = selected_items;
            let ghost gitem = item;
            selected_items.push(item);
            proof {
                lemma_push_deep_view(selected_items, prev, gitem);
            }
            let is_comma = match self.peek() {
                Err(e) => {
                    return Err(e);
                },
                Ok(t) => matches!(t, Token::Grammar(GrammarType::Comma)),
            };
            if is_comma {
                self.advance();
                continue ;
            }
            let is_from = match self.peek() {
                Err(_) => false,
                Ok(t) => matches!(t, Token::Keyword(KeywordType::From)),
            };
            if is_from {
                return Ok(selected_items);
            }
            let message = match self.peek() {
                Ok(t) => {
                    let mut m = String::from_str("Expected comma or FROM, ");
                    let shown = text::token_text(t);
                    m.append(shown.as_str());
                    m.append(" found");
                    m
                },
                Err(_) => {
                    proof {
                        assert(false);
                    }
                    String::new()
                },
            };
            return Err(ParserError { message, position: self.position });
        }
    }

    fn parse_from(&mut self) -> (r: Result<Option<FromClause>, ParserError>)
        requires
            old(self).wf(),
        ensures
            final(self).wf(),
            final(self).toks() == old(self).toks(),
            match r {
                Ok(from) => from is Some && spec_parse_from(old(self).toks(), old(self).pos())
                    == Ok::<(Seq<char>, int), ParseErr>((spec_opt_from_view(from)->0, final(self).pos())) && old(self).pos() < final(self).pos() <= old(self).toks().len(),
                Err(e) => ({
                    let s = spec_parse_from(old(self).toks(), old(self).pos());
                    s is Err && spec_err_matches(e, s->Err_0)
                }),
            },
    {
        match self.expect_keyword(KeywordType::From) {
            Err(e) => {
                return Err(e);
            },
            Ok(_) => {},
        }
        match self.expect_string_literal() {
            Ok(source) => Ok(Some(FromClause { source })),
            Err(e) => {
                let mut message = String::from_str("Expected string literal after FROM: ");
                message.append(e.message.as_str());
                Err(ParserError { message, position: e.position })
            },
        }
    }

    fn parse_where(&mut self) -> (r: Result<Option<Expr>, ParserError>)
        requires
            old(self).wf(),
        ensures
            final(self).wf(),
            final(self).toks() == old(self).toks(),
            match r {
                Ok(w) => spec_parse_where(old(self).toks(), old(self).pos()) == Ok::<
                    (Option<ExprV>, int),
                    ParseErr,
                >((spec_opt_expr_view(w), final(self).pos())) && old(self).pos() <= final(self).pos() <= old(self).toks().len(),
                Err(e) => ({
                    let s = spec_parse_where(old(self).toks(), old(self).pos());
                    s is Err && spec_err_matches(e, s->Err_0)
                }),
            },
    {
        let is_where = match self.peek() {
            Err(e) => {
                return Err(e);
            },
            Ok(t) => matches!(t, Token::Keyword(KeywordType::Where)),
        };
        if !is_where {
            return Ok(None);
        }
        self.advance();
        let expr = match self.parse_or_expression() {
            Err(e) => {
                return Err(e);
            },
            Ok(expr) => expr,
        };
        Ok(Some(expr))
    }

    fn parse_group_by(&mut self) -> (r: Result<Option<Vec<Expr>>, ParserError>)
        requires
            old(self).wf(),
        ensures
            final(self).wf(),
            final(self).toks() == old(self).toks(),
            match r {
                Ok(g) => spec_parse_group_by(old(self).toks(), old(self).pos()) == Ok::<
                    (Option<Seq<ExprV>>, int),
                    ParseErr,
                >((spec_opt_exprs_view(g), final(self).pos())) && old(self).pos() <= final(self).pos() <= old(self).toks().len(),
                Err(e) => ({
                    let s = spec_parse_group_by(old(self).toks(), old(self).pos());
                    s is Err && spec_err_matches(e, s->Err_0)
                }),
            },
    {
        let ghost toks0 = old(self).toks();
        let ghost p0 = old(self).pos();
        let is_group = match self.peek() {
            Err(e) => {
                return Err(e);
            },
            Ok(t) => matches!(t, Token::Keyword(KeywordType::Group)),
        };
        if !is_group {
            return Ok(None);
        }
        self.advance();
        match self.expect_keyword(KeywordType::By) {
            Err(e) => {
                return Err(e);
            },
            Ok(_) => {},
        }
        let mut items: Vec<Expr> = Vec::new();
        proof {
            assert(items.deep_view() =~= Seq::<ExprV>::empty());
        }
        loop
            invariant
                self.wf(),
                toks0 == old(self).toks(),
                p0 == old(self).pos(),
                self.toks() == toks0,
                p0 < self.pos() <= toks0.len(),
                spec_parse_group_by(toks0, p0) == spec_wrap_group(
                    spec_parse_group_items(toks0, self.pos(), items.deep_view()),
                ),
            decreases toks0.len() - self.pos(),
        {
            let name = match self.expect_identifier() {
                Err(e) => {
                    return Err(e);
                },
                Ok(name) => name,
            };
            let ghost prev = items;
            let column = Expr::Column(name);
            let ghost gcolumn = column;
            items.push(column);
            proof {
                lemma_push_deep_view(items, prev, gcolumn);
            }
            let is_comma = match self.peek() {
                Err(e) => {
                    return Err(e);
                },
                Ok(t) => matches!(t, Token::Grammar(GrammarType::Comma)),
            };
            if is_comma {
                self.advance();
            } else {
                return Ok(Some(items));
            }
        }
    }

    fn parse_order_by(&mut self) -> (r: Result<Option<Vec<OrderByItem>>, ParserError>)
        requires
            old(self).wf(),
        ensures
            final(self).wf(),
            final(self).toks() == old(self).toks(),
            match r {
                Ok(o) => spec_parse_order_by(old(self).toks(), old(self).pos()) == Ok::<
                    (Option<Seq<OrderByItemV>>, int),
                    ParseErr,
                >((spec_opt_orders_view(o), final(self).pos())) && old(self).pos() <= final(self).pos() <= old(self).toks().len(),
                Err(e) => ({
                    let s = spec_parse_order_by(old(self).toks(), old(self).pos());
                    s is Err && spec_err_matches(e, s->Err_0)
                }),
            },
    {
        let ghost toks0 = old(self).toks();
        let ghost p0 = old(self).pos();
        let is_order = match self.peek() {
            Err(e) => {
                return Err(e);
            },
            Ok(t) => matches!(t, Token::Keyword(KeywordType::Order)),
        };
        if !is_order {
            return Ok(None);
        }
        self.advance();
        match self.expect_keyword(KeywordType::By) {
            Err(e) => {
                return Err(e);
            },
            Ok(_) => {},
        }
        let mut items: Vec<OrderByItem> = Vec::new();
        proof {
            assert(items.deep_view() =~= Seq::<OrderByItemV>::empty());
        }
        loop
            invariant
                self.wf(),
                toks0 == old(self).toks(),
                p0 == old(self).pos(),
                self.toks() == toks0,
                p0 < self.pos() <= toks0.len(),
                spec_parse_order_by(toks0, p0) == spec_wrap_order(
                    spec_parse_order_items(toks0, self.pos(), items.deep_view()),
                ),
            decreases toks0.len() - self.pos(),
        {
            let name = match self.expect_identifier() {
                Err(e) => {
                    return Err(e);
                },
                Ok(name) => name,
            };
            let is_asc = match self.peek() {
                Err(e) => {
                    return Err(e);
                },
                Ok(t) => matches!(t, Token::Keyword(KeywordType::Asc)),
            };
            let is_desc = match self.peek() {
                Err(_) => false,
                Ok(t) => matches!(t, Token::Keyword(KeywordType::Desc)),
            };
            let asc = if is_asc {
                self.advance();
                true
            } else if is_desc {
                self.advance();
                false
            } else {
                true
            };
            let ghost prev = items;
            let item = OrderByItem { expr: Expr::Column(name), asc };
            let ghost gitem = item;
            items.push(item);
            proof {
                lemma_push_deep_view(items, prev, gitem);
            }
            let is_comma = match self.peek() {
                Err(e) => {
                    return Err(e);
                },
                Ok(t) => matches!(t, Token::Grammar(GrammarType::Comma)),
            };
            if is_comma {
                self.advance();
            } else {
                return Ok(Some(items));
            }
        }
    }

    fn parse_select(&mut self) -> (r: Result<SelectStatement, ParserError>)
        requires
            old(self).wf(),
        ensures
            final(self).wf(),
            final(self).toks() == old(self).toks(),
            match r {
                Ok(stmt) => spec_parse_select(old(self).toks(), old(self).pos()) == Ok::<
                    (SelectStatementV, int),
                    ParseErr,
                >((stmt@, final(self).pos())) && old(self).pos() < final(self).pos() <= old(self).toks().len(),
                Err(e) => ({
                    let s = spec_parse_select(old(self).toks(), old(self).pos());
                    s is Err && spec_err_matches(e, s->Err_0)
                }),
            },
    {
        match self.expect_keyword(KeywordType::Select) {
            Err(e) => {
                return Err(e);
            },
            Ok(_) => {},
        }
        let columns = match self.parse_columns() {
            Err(e) => {
                return Err(e);
            },
            Ok(columns) => columns,
        };
        let from = match self.parse_from() {
            Err(e) => {
                return Err(e);
            },
            Ok(from) => from,
        };
        let where_clause = match self.parse_where() {
            Err(e) => {
                return Err(e);
            },
            Ok(w) => w,
        };
        let group_by = match self.parse_group_by() {
            Err(e) => {
                return Err(e);
            },
            Ok(g) => g,
        };
        let order_by = match self.parse_order_by() {
            Err(e) => {
                return Err(e);
            },
            Ok(o) => o,
        };
        Ok(SelectStatement { columns, from, where_clause, group_by, order_by })
    }

    fn parse_statement(&mut self) -> (r: Result<Statement, ParserError>)
        requires
            old(self).wf(),
        ensures
            final(self).wf(),
            final(self).toks() == old(self).toks(),
            match r {
                Ok(stmt) => spec_parse_statement(old(self).toks(), old(self).pos()) == Ok::<
                    (StatementV, int),
                    ParseErr,
                >((stmt@, final(self).pos())),
                Err(e) => ({
                    let s = spec_parse_statement(old(self).toks(), old(self).pos());
                    s is Err && spec_err_matches(e, s->Err_0)
                }),
            },
    {
        let is_select = match self.peek() {
            Err(e) => {
                return Err(e);
            },
            Ok(t) => matches!(t, Token::Keyword(KeywordType::Select)),
        };
        if is_select {
            match self.parse_select() {
                Ok(select) => Ok(Statement::Select(select)),
                Err(e) => Err(e),
            }
        } else {
            Err(
                ParserError {
                    message: String::from_str("Expected SELECT keyword"),
                    position: self.position,
                },
            )
        }
    }

    /// Parse the whole token sequence into a statement, or fail with the
    /// syntax error [`spec_parse_statement`] gives: exactly its message,
    /// at exactly its token position.
    pub fn parse(&mut self) -> (r: Result<Statement, ParserError>)
        requires
            old(self).wf(),
        ensures
            final(self).wf(),
            final(self).toks() == old(self).toks(),
            match r {
                Ok(stmt) => spec_parse_statement(old(self).toks(), old(self).pos()) == Ok::<
                    (StatementV, int),
                    ParseErr,
                >((stmt@, final(self).pos())),
                Err(e) => ({
                    let s = spec_parse_statement(old(self).toks(), old(self).pos());
                    s is Err && spec_err_matches(e, s->Err_0)
                }),
            },
    {
        self.parse_statement()
    }
}

/// Wrap a parsed GROUP BY column list as the optional clause value.
pub open spec fn spec_wrap_group(rest: Result<(Seq<ExprV>, int), ParseErr>) -> Result<
    (Option<Seq<ExprV>>, int),
    ParseErr,
> {
    match rest {
        Ok(pair) => Ok((Some(pair.0), pair.1)),
        Err(e) => Err(e),
    }
}

/// Wrap a parsed ORDER BY item list as the optional clause value.
pub open spec fn spec_wrap_order(rest: Result<(Seq<OrderByItemV>, int), ParseErr>) -> Result<
    (Option<Seq<OrderByItemV>>, int),
    ParseErr,
> {
    match rest {
        Ok(pair) => Ok((Some(pair.0), pair.1)),
        Err(e) => Err(e),
    }
}

} // verus!
