//! The abstract syntax tree the parser produces: one statement kind
//! (SELECT), its clause types, and the expression tree. Every node owns
//! its children exclusively; the parser never returns a partially built
//! node.
//!
//! Each type carries a mathematical view in which payload strings are
//! character sequences; the parser's contracts speak of those views.

use vstd::prelude::*;

verus! {

#[derive(Debug, Clone, Copy, PartialEq, Eq, Structural)]
pub enum BinaryOperator {
    Equals,
    NotEquals,
    GreaterThan,
    LessThan,
    GreaterThanOrEquals,
    LessThanOrEquals,
    And,
    Or,
    Add,
    Subtract,
    Multiply,
    Divide,
}

#[derive(Debug, Clone, Copy, PartialEq, Eq, Structural)]
pub enum UnaryOperator {
    Not,
    Minus,
}

#[derive(Debug, Clone, Copy, PartialEq, Eq, Structural)]
pub enum AggregateFunc {
    Sum,
    Avg,
    Count,
    Min,
    Max,
}

/// A literal value in an expression. A float literal keeps its spelling:
/// this front end classifies literals lexically and never computes with
/// them.
#[derive(Debug, Clone, PartialEq)]
pub enum Value {
    Null,
    Bool(bool),
    Int(i64),
    Float(String),
    String(String),
}

/// The mathematical value of a [`Value`].
#[verifier::ext_equal]
pub enum ValueV {
    Null,
    Bool(bool),
    Int(i64),
    Float(Seq<char>),
    String(Seq<char>),
}

impl View for Value {
    type V = ValueV;

    open spec fn view(&self) -> ValueV {
        match self {
            Value::Null => ValueV::Null,
            Value::Bool(b) => ValueV::Bool(*b),
            Value::Int(i) => ValueV::Int(*i),
            Value::Float(s) => ValueV::Float(s@),
            Value::String(s) => ValueV::String(s@),
        }
    }
}

impl DeepView for Value {
    type V = ValueV;

    open spec fn deep_view(&self) -> ValueV {
        self.view()
    }
}

/// An expression: a column reference, a literal, or an operator applied
/// to owned sub-expressions.
#[derive(Debug, PartialEq)]
pub enum Expr {
    Column(String),
    Literal(Value),
    BinaryOp { left: Box<Expr>, operator: BinaryOperator, right: Box<Expr> },
    UnaryOp { operator: UnaryOperator, expr: Box<Expr> },
}

/// The mathematical value of an [`Expr`].
#[verifier::ext_equal]
pub enum ExprV {
    Column(Seq<char>),
    Literal(ValueV),
    BinaryOp { left: Box<ExprV>, operator: BinaryOperator, right: Box<ExprV> },
    UnaryOp { operator: UnaryOperator, expr: Box<ExprV> },
}

/// The mathematical value of an expression tree, child by child.
pub open spec fn spec_expr_view(e: Expr) -> ExprV
    decreases e,
{
    match e {
        Expr::Column(name) => ExprV::Column(name@),
        Expr::Literal(v) => ExprV::Literal(v@),
        Expr::BinaryOp { left, operator, right } => ExprV::BinaryOp {
            left: Box::new(spec_expr_view(*left)),
            operator: operator,
            right: Box::new(spec_expr_view(*right)),
        },
        Expr::UnaryOp { operator, expr } => ExprV::UnaryOp {
            operator: operator,
            expr: Box::new(spec_expr_view(*expr)),
        },
    }
}

impl View for Expr {
    type V = ExprV;

    open spec fn view(&self) -> ExprV {
        spec_expr_view(*self)
    }
}

impl DeepView for Expr {
    type V = ExprV;

    open spec fn deep_view(&self) -> ExprV {
        self.view()
    }
}

/// The clause naming the data source a query reads from: a file path or
/// other name, always realized as a string at parse time.
#[derive(Debug, Clone, PartialEq, Eq)]
pub struct FromClause {
    pub source: String,
}

impl View for FromClause {
    type V = Seq<char>;

    open spec fn view(&self) -> Seq<char> {
        self.source@
    }
}

impl DeepView for FromClause {
    type V = Seq<char>;

    open spec fn deep_view(&self) -> Seq<char> {
        self.source@
    }
}

/// One item of the projection list: `*`, a bare column, or an aggregate
/// call whose argument is `None` exactly for `COUNT(*)`.
#[derive(Debug, PartialEq)]
pub enum SelectItem {
    Wildcard,
    Column(String),
    Aggregate { func: AggregateFunc, expr: Option<Box<Expr>> },
}

/// The mathematical value of a [`SelectItem`].
#[verifier::ext_equal]
pub enum SelectItemV {
    Wildcard,
    Column(Seq<char>),
    Aggregate { func: AggregateFunc, expr: Option<Box<ExprV>> },
}

impl View for SelectItem {
    type V = SelectItemV;

    open spec fn view(&self) -> SelectItemV {
        match self {
            SelectItem::Wildcard => SelectItemV::Wildcard,
            SelectItem::Column(name) => SelectItemV::Column(name@),
            SelectItem::Aggregate { func, expr } => SelectItemV::Aggregate {
                func: *func,
                expr: match expr {
                    Some(e) => Some(Box::new(spec_expr_view(*(*e)))),
                    None => None,
                },
            },
        }
    }
}

impl DeepView for SelectItem {
    type V = SelectItemV;

    open spec fn deep_view(&self) -> SelectItemV {
        self.view()
    }
}

/// One item of the ORDER BY list; `asc` is true unless `DESC` was given.
#[derive(Debug, PartialEq)]
pub struct OrderByItem {
    pub expr: Expr,
    pub asc: bool,
}

/// The mathematical value of an [`OrderByItem`].
#[verifier::ext_equal]
pub struct OrderByItemV {
    pub expr: ExprV,
    pub asc: bool,
}

impl View for OrderByItem {
    type V = OrderByItemV;

    open spec fn view(&self) -> OrderByItemV {
        OrderByItemV { expr: self.expr@, asc: self.asc }
    }
}

impl DeepView for OrderByItem {
    type V = OrderByItemV;

    open spec fn deep_view(&self) -> OrderByItemV {
        self.view()
    }
}

/// A parsed SELECT statement. The projection list is never empty. An
/// absent clause is `None`; `GROUP BY` and `ORDER BY` distinguish absent
/// from present-but-empty, and parsing always yields a non-empty list
/// when present.
#[derive(Debug, PartialEq)]
pub struct SelectStatement {
    pub columns: Vec<SelectItem>,
    pub from: Option<FromClause>,
    pub where_clause: Option<Expr>,
    pub group_by: Option<Vec<Expr>>,
    pub order_by: Option<Vec<OrderByItem>>,
}

/// The mathematical value of a [`SelectStatement`].
#[verifier::ext_equal]
pub struct SelectStatementV {
    pub columns: Seq<SelectItemV>,
    pub from: Option<Seq<char>>,
    pub where_clause: Option<ExprV>,
    pub group_by: Option<Seq<ExprV>>,
    pub order_by: Option<Seq<OrderByItemV>>,
}

/// The view of an optional FROM clause.
pub open spec fn spec_opt_from_view(f: Option<FromClause>) -> Option<Seq<char>> {
    match f {
        Some(f) => Some(f@),
        None => None,
    }
}

/// The view of an optional expression.
pub open spec fn spec_opt_expr_view(e: Option<Expr>) -> Option<ExprV> {
    match e {
        Some(e) => Some(spec_expr_view(e)),
        None => None,
    }
}

/// The view of an optional expression list.
pub open spec fn spec_opt_exprs_view(es: Option<Vec<Expr>>) -> Option<Seq<ExprV>> {
    match es {
        Some(es) => Some(es.deep_view()),
        None => None,
    }
}

/// The view of an optional ORDER BY item list.
pub open spec fn spec_opt_orders_view(os: Option<Vec<OrderByItem>>) -> Option<Seq<OrderByItemV>> {
    match os {
        Some(os) => Some(os.deep_view()),
        None => None,
    }
}

impl View for SelectStatement {
    type V = SelectStatementV;

    open spec fn view(&self) -> SelectStatementV {
        SelectStatementV {
            columns: self.columns.deep_view(),
            from: spec_opt_from_view(self.from),
            where_clause: spec_opt_expr_view(self.where_clause),
            group_by: spec_opt_exprs_view(self.group_by),
            order_by: spec_opt_orders_view(self.order_by),
        }
    }
}

impl DeepView for SelectStatement {
    type V = SelectStatementV;

    open spec fn deep_view(&self) -> SelectStatementV {
        self.view()
    }
}

/// A parsed statement. SELECT is the one kind this language has; the
/// closed set is ready to grow without breaking existing matches.
#[derive(Debug, PartialEq)]
pub enum Statement {
    Select(SelectStatement),
}

/// The mathematical value of a [`Statement`].
#[verifier::ext_equal]
pub enum StatementV {
    Select(SelectStatementV),
}

impl View for Statement {
    type V = StatementV;

    open spec fn view(&self) -> StatementV {
        match self {
            Statement::Select(s) => StatementV::Select(s@),
        }
    }
}

impl DeepView for Statement {
    type V = StatementV;

    open spec fn deep_view(&self) -> StatementV {
        self.view()
    }
}

} // verus!
