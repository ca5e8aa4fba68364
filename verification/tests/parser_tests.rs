use rsql_parser::ast::{
    AggregateFunc, BinaryOperator, Expr, FromClause, OrderByItem, SelectItem, SelectStatement,
    Statement, Value,
};
use rsql_parser::ast::Expr::{BinaryOp, Column};
use rsql_parser::grammar::GrammarType;
use rsql_parser::keywords::KeywordType;
use rsql_parser::operators::OperatorType;
use rsql_parser::parser::Parser;
use rsql_parser::tokenizer::tokenize;
use rsql_parser::tokens::Token;

#[test]
fn tokenizer_parser_tokenize_test() {
    let mut sql = "select * from \"users.csv\";";
    let mut tokens = tokenize(sql);
    assert_eq!(tokens.len(), 5);
    assert_eq!(tokens[0], Token::Keyword(KeywordType::Select));
    assert_eq!(tokens[1], Token::Grammar(GrammarType::Asterisk));
    assert_eq!(tokens[2], Token::Keyword(KeywordType::From));
    assert_eq!(tokens[3], Token::StringLiteral("users.csv".to_string()));
    assert_eq!(tokens[4], Token::Grammar(GrammarType::Semicolon));
    // test parser
    let mut parser = Parser::new(tokens);
    let mut response = parser.parse().unwrap();
    match response {
        Statement::Select(statement) => {
            let columns = statement.columns;
            assert_eq!(columns.len(), 1);
            assert_eq!(columns[0], SelectItem::Wildcard);
            let from = statement.from;
            match from {
                Some(FromClause { source }) => {
                    assert_eq!(source, "users.csv");
                },
                None => panic!("Expected from clause"),
            }
            assert_eq!(statement.group_by, None);
            assert_eq!(statement.order_by, None);
        },
    }

    sql = "SELECT name FROM 'users';";
    tokens = tokenize(sql);
    assert_eq!(tokens.len(), 5);
    assert_eq!(tokens[0], Token::Keyword(KeywordType::Select));
    assert_eq!(tokens[1], Token::Identifier("name".to_string()));
    assert_eq!(tokens[2], Token::Keyword(KeywordType::From));
    assert_eq!(tokens[3], Token::StringLiteral("users".to_string()));
    assert_eq!(tokens[4], Token::Grammar(GrammarType::Semicolon));
    // test parser
    parser = Parser::new(tokens);
    response = parser.parse().unwrap();
    match response {
        Statement::Select(statement) => {
            let columns = statement.columns;
            assert_eq!(columns.len(), 1);
            assert_eq!(columns[0], SelectItem::Column("name".to_string()));
            let from = statement.from;
            match from {
                Some(FromClause { source }) => {
                    assert_eq!(source, "users");
                },
                None => panic!("Expected from clause"),
            }
            assert_eq!(statement.group_by, None);
            assert_eq!(statement.order_by, None);
        },
    }

    sql = "SELECT id, name, age FROM \"employees\";";
    tokens = tokenize(sql);
    assert_eq!(tokens.len(), 9);
    assert_eq!(tokens[0], Token::Keyword(KeywordType::Select));
    assert_eq!(tokens[1], Token::Identifier("id".to_string()));
    assert_eq!(tokens[2], Token::Grammar(GrammarType::Comma));
    assert_eq!(tokens[3], Token::Identifier("name".to_string()));
    assert_eq!(tokens[4], Token::Grammar(GrammarType::Comma));
    assert_eq!(tokens[5], Token::Identifier("age".to_string()));
    assert_eq!(tokens[6], Token::Keyword(KeywordType::From));
    assert_eq!(tokens[7], Token::StringLiteral("employees".to_string()));
    assert_eq!(tokens[8], Token::Grammar(GrammarType::Semicolon));
    // test parser
    parser = Parser::new(tokens);
    response = parser.parse().unwrap();
    match response {
        Statement::Select(SelectStatement { columns, from, where_clause: _, group_by, order_by }) => {
            assert_eq!(columns.len(), 3);
            assert_eq!(columns[0], SelectItem::Column("id".to_string()));
            assert_eq!(columns[1], SelectItem::Column("name".to_string()));
            assert_eq!(columns[2], SelectItem::Column("age".to_string()));
            match from {
                Some(FromClause { source }) => {
                    assert_eq!(source, "employees");
                },
                None => panic!("Expected from clause"),
            }
            assert_eq!(group_by, None);
            assert_eq!(order_by, None);
        },
    }

    sql = "SELECT name, salary FROM 'employees' WHERE salary > 50000;";
    tokens = tokenize(sql);
    assert_eq!(tokens.len(), 11);
    assert_eq!(tokens[0], Token::Keyword(KeywordType::Select));
    assert_eq!(tokens[1], Token::Identifier("name".to_string()));
    assert_eq!(tokens[2], Token::Grammar(GrammarType::Comma));
    assert_eq!(tokens[3], Token::Identifier("salary".to_string()));
    assert_eq!(tokens[4], Token::Keyword(KeywordType::From));
    assert_eq!(tokens[5], Token::StringLiteral("employees".to_string()));
    assert_eq!(tokens[6], Token::Keyword(KeywordType::Where));
    assert_eq!(tokens[7], Token::Identifier("salary".to_string()));
    assert_eq!(tokens[8], Token::Operator(OperatorType::GreaterThan));
    assert_eq!(tokens[9], Token::Integer(50000));
    assert_eq!(tokens[10], Token::Grammar(GrammarType::Semicolon));
    parser = Parser::new(tokens);
    response = parser.parse().unwrap();
    match response {
        Statement::Select(SelectStatement { columns, from, where_clause, group_by, order_by }) => {
            assert_eq!(columns.len(), 2);
            assert_eq!(columns[0], SelectItem::Column("name".to_string()));
            assert_eq!(columns[1], SelectItem::Column("salary".to_string()));
            match from {
                Some(FromClause { source }) => {
                    assert_eq!(source, "employees");
                },
                None => panic!("Expected from clause"),
            }
            let expected_where_expr = BinaryOp {
                left: Box::new(Expr::Column("salary".to_string())),
                operator: BinaryOperator::GreaterThan,
                right: Box::new(Expr::Literal(Value::Int(50000))),
            };
            assert_eq!(where_clause, Some(expected_where_expr));
            assert_eq!(group_by, None);
            assert_eq!(order_by, None);
        },
    }

    sql = "SELECT name FROM 'employees' WHERE department = 'HR' AND salary >= 40000;";
    tokens = tokenize(sql);
    assert_eq!(tokens.len(), 13);
    assert_eq!(tokens[0], Token::Keyword(KeywordType::Select));
    assert_eq!(tokens[1], Token::Identifier("name".to_string()));
    assert_eq!(tokens[2], Token::Keyword(KeywordType::From));
    assert_eq!(tokens[3], Token::StringLiteral("employees".to_string()));
    assert_eq!(tokens[4], Token::Keyword(KeywordType::Where));
    assert_eq!(tokens[5], Token::Identifier("department".to_string()));
    assert_eq!(tokens[6], Token::Operator(OperatorType::Equals));
    assert_eq!(tokens[7], Token::StringLiteral("HR".to_string()));
    assert_eq!(tokens[8], Token::Keyword(KeywordType::And));
    assert_eq!(tokens[9], Token::Identifier("salary".to_string()));
    assert_eq!(tokens[10], Token::Operator(OperatorType::GreaterThanOrEqual));
    assert_eq!(tokens[11], Token::Integer(40000));
    assert_eq!(tokens[12], Token::Grammar(GrammarType::Semicolon));
    parser = Parser::new(tokens);
    response = parser.parse().unwrap();
    match response {
        Statement::Select(SelectStatement { columns, from, where_clause, group_by, order_by }) => {
            assert_eq!(columns.len(), 1);
            assert_eq!(columns[0], SelectItem::Column("name".to_string()));
            assert_eq!(from, Some(FromClause { source: "employees".to_string() }));
            match where_clause {
                Some(Expr::BinaryOp { left, operator: _, right: _ }) => {
                    let expected_left = Box::new(Expr::BinaryOp {
                        left: Box::new(Expr::Column(String::from("department"))),
                        operator: BinaryOperator::Equals,
                        right: Box::new(Expr::Literal(Value::String(String::from("HR")))),
                    });
                    assert_eq!(left, expected_left);
                },
                _ => panic!("Expected expression for where clause"),
            }
            assert_eq!(group_by, None);
            assert_eq!(order_by, None);
        },
    }

    sql = "SELECT name, age FROM \"users\" ORDER BY age DESC;";
    tokens = tokenize(sql);
    assert_eq!(tokens.len(), 11);
    assert_eq!(tokens[0], Token::Keyword(KeywordType::Select));
    assert_eq!(tokens[1], Token::Identifier("name".to_string()));
    assert_eq!(tokens[2], Token::Grammar(GrammarType::Comma));
    assert_eq!(tokens[3], Token::Identifier("age".to_string()));
    assert_eq!(tokens[4], Token::Keyword(KeywordType::From));
    assert_eq!(tokens[5], Token::StringLiteral("users".to_string()));
    assert_eq!(tokens[6], Token::Keyword(KeywordType::Order));
    assert_eq!(tokens[7], Token::Keyword(KeywordType::By));
    assert_eq!(tokens[8], Token::Identifier("age".to_string()));
    assert_eq!(tokens[9], Token::Keyword(KeywordType::Desc));
    assert_eq!(tokens[10], Token::Grammar(GrammarType::Semicolon));
    parser = Parser::new(tokens);
    response = parser.parse().unwrap();
    match response {
        Statement::Select(SelectStatement { columns, from, where_clause, group_by, order_by }) => {
            assert_eq!(columns.len(), 2);
            assert_eq!(columns[0], SelectItem::Column("name".to_string()));
            assert_eq!(columns[1], SelectItem::Column("age".to_string()));
            match from {
                Some(FromClause { source }) => {
                    assert_eq!(source, "users");
                },
                None => panic!("Expected from clause"),
            }
            assert_eq!(where_clause, None);
            assert_eq!(group_by, None);
            match order_by {
                Some(order_by_items) => {
                    assert_eq!(order_by_items.len(), 1);
                    let expected = OrderByItem { expr: Column("age".to_string()), asc: false };
                    assert_eq!(order_by_items[0], expected);
                },
                None => panic!("Expected order by item"),
            }
        },
    }

    sql = "SELECT department, COUNT(*) FROM 'employees' GROUP BY department;";
    tokens = tokenize(sql);
    assert_eq!(tokens.len(), 13);
    assert_eq!(tokens[0], Token::Keyword(KeywordType::Select));
    assert_eq!(tokens[1], Token::Identifier("department".to_string()));
    assert_eq!(tokens[2], Token::Grammar(GrammarType::Comma));
    assert_eq!(tokens[3], Token::Keyword(KeywordType::Count));
    assert_eq!(tokens[4], Token::Grammar(GrammarType::OpenParen));
    assert_eq!(tokens[5], Token::Grammar(GrammarType::Asterisk));
    assert_eq!(tokens[6], Token::Grammar(GrammarType::CloseParen));
    assert_eq!(tokens[7], Token::Keyword(KeywordType::From));
    assert_eq!(tokens[8], Token::StringLiteral("employees".to_string()));
    assert_eq!(tokens[9], Token::Keyword(KeywordType::Group));
    assert_eq!(tokens[10], Token::Keyword(KeywordType::By));
    assert_eq!(tokens[11], Token::Identifier("department".to_string()));
    assert_eq!(tokens[12], Token::Grammar(GrammarType::Semicolon));
    parser = Parser::new(tokens);
    response = parser.parse().unwrap();
    match response {
        Statement::Select(SelectStatement { columns, from, where_clause, group_by, order_by }) => {
            assert_eq!(columns.len(), 2);
            assert_eq!(columns[0], SelectItem::Column("department".to_string()));
            assert_eq!(
                columns[1],
                SelectItem::Aggregate { func: AggregateFunc::Count, expr: None }
            );
            match from {
                Some(FromClause { source }) => {
                    assert_eq!(source, "employees");
                },
                None => panic!("Expected from clause"),
            }
            assert_eq!(where_clause, None);
            assert_eq!(order_by, None);
            match group_by {
                Some(group_by_items) => {
                    assert_eq!(group_by_items.len(), 1);
                    let expected = Expr::Column("department".to_string());
                    assert_eq!(group_by_items[0], expected);
                },
                None => panic!("Expected order by item"),
            }
        },
    }

    sql = "SELECT department, name, COUNT(*) FROM 'employees' GROUP BY department, name;";
    tokens = tokenize(sql);
    assert_eq!(tokens.len(), 17);
    assert_eq!(tokens[0], Token::Keyword(KeywordType::Select));
    assert_eq!(tokens[1], Token::Identifier("department".to_string()));
    assert_eq!(tokens[2], Token::Grammar(GrammarType::Comma));
    assert_eq!(tokens[3], Token::Identifier("name".to_string()));
    assert_eq!(tokens[4], Token::Grammar(GrammarType::Comma));
    assert_eq!(tokens[5], Token::Keyword(KeywordType::Count));
    assert_eq!(tokens[6], Token::Grammar(GrammarType::OpenParen));
    assert_eq!(tokens[7], Token::Grammar(GrammarType::Asterisk));
    assert_eq!(tokens[8], Token::Grammar(GrammarType::CloseParen));
    assert_eq!(tokens[9], Token::Keyword(KeywordType::From));
    assert_eq!(tokens[10], Token::StringLiteral("employees".to_string()));
    assert_eq!(tokens[11], Token::Keyword(KeywordType::Group));
    assert_eq!(tokens[12], Token::Keyword(KeywordType::By));
    assert_eq!(tokens[13], Token::Identifier("department".to_string()));
    assert_eq!(tokens[14], Token::Grammar(GrammarType::Comma));
    assert_eq!(tokens[15], Token::Identifier("name".to_string()));
    assert_eq!(tokens[16], Token::Grammar(GrammarType::Semicolon));
    parser = Parser::new(tokens);
    response = parser.parse().unwrap();
    match response {
        Statement::Select(SelectStatement { columns, from, where_clause, group_by, order_by }) => {
            assert_eq!(columns.len(), 3);
            assert_eq!(columns[0], SelectItem::Column("department".to_string()));
            assert_eq!(columns[1], SelectItem::Column("name".to_string()));
            assert_eq!(
                columns[2],
                SelectItem::Aggregate { func: AggregateFunc::Count, expr: None }
            );
            match from {
                Some(FromClause { source }) => {
                    assert_eq!(source, "employees");
                },
                None => panic!("Expected from clause"),
            }
            assert_eq!(where_clause, None);
            assert_eq!(order_by, None);
            match group_by {
                Some(group_by_items) => {
                    assert_eq!(group_by_items.len(), 2);
                    let expected = Expr::Column("department".to_string());
                    assert_eq!(group_by_items[0], expected);
                    let expected = Expr::Column("name".to_string());
                    assert_eq!(group_by_items[1], expected);
                },
                None => panic!("Expected order by item"),
            }
        },
    }

    sql = "SELECT name FROM users WHERE (age > 18 AND city = 'Delhi') OR city = 'Mumbai';";
    tokens = tokenize(sql);
    assert_eq!(tokens.len(), 19);
    assert_eq!(tokens[0], Token::Keyword(KeywordType::Select));
    assert_eq!(tokens[1], Token::Identifier("name".to_string()));
    assert_eq!(tokens[2], Token::Keyword(KeywordType::From));
    assert_eq!(tokens[3], Token::Identifier("users".to_string()));
    assert_eq!(tokens[4], Token::Keyword(KeywordType::Where));
    assert_eq!(tokens[5], Token::Grammar(GrammarType::OpenParen));
    assert_eq!(tokens[6], Token::Identifier("age".to_string()));
    assert_eq!(tokens[7], Token::Operator(OperatorType::GreaterThan));
    assert_eq!(tokens[8], Token::Integer(18));
    assert_eq!(tokens[9], Token::Keyword(KeywordType::And));
    assert_eq!(tokens[10], Token::Identifier("city".to_string()));
    assert_eq!(tokens[11], Token::Operator(OperatorType::Equals));
    assert_eq!(tokens[12], Token::StringLiteral("Delhi".to_string()));
    assert_eq!(tokens[13], Token::Grammar(GrammarType::CloseParen));
    assert_eq!(tokens[14], Token::Keyword(KeywordType::Or));
    assert_eq!(tokens[15], Token::Identifier("city".to_string()));
    assert_eq!(tokens[16], Token::Operator(OperatorType::Equals));
    assert_eq!(tokens[17], Token::StringLiteral("Mumbai".to_string()));
    assert_eq!(tokens[18], Token::Grammar(GrammarType::Semicolon));

    sql = "SELECT name FROM users WHERE city = 'New York';";
    tokens = tokenize(sql);
    assert_eq!(tokens.len(), 9);
    assert_eq!(tokens[0], Token::Keyword(KeywordType::Select));
    assert_eq!(tokens[1], Token::Identifier("name".to_string()));
    assert_eq!(tokens[2], Token::Keyword(KeywordType::From));
    assert_eq!(tokens[3], Token::Identifier("users".to_string()));
    assert_eq!(tokens[4], Token::Keyword(KeywordType::Where));
    assert_eq!(tokens[5], Token::Identifier("city".to_string()));
    assert_eq!(tokens[6], Token::Operator(OperatorType::Equals));
    assert_eq!(tokens[7], Token::StringLiteral("New York".to_string()));
    assert_eq!(tokens[8], Token::Grammar(GrammarType::Semicolon));

    sql = "SELECT name, price FROM products WHERE price < 99.99;";
    tokens = tokenize(sql);
    assert_eq!(tokens.len(), 11);
    assert_eq!(tokens[0], Token::Keyword(KeywordType::Select));
    assert_eq!(tokens[1], Token::Identifier("name".to_string()));
    assert_eq!(tokens[2], Token::Grammar(GrammarType::Comma));
    assert_eq!(tokens[3], Token::Identifier("price".to_string()));
    assert_eq!(tokens[4], Token::Keyword(KeywordType::From));
    assert_eq!(tokens[5], Token::Identifier("products".to_string()));
    assert_eq!(tokens[6], Token::Keyword(KeywordType::Where));
    assert_eq!(tokens[7], Token::Identifier("price".to_string()));
    assert_eq!(tokens[8], Token::Operator(OperatorType::SmallerThan));
    assert_eq!(tokens[9], Token::Float("99.99".to_string()));
    assert_eq!(tokens[10], Token::Grammar(GrammarType::Semicolon));

    sql = "SELECT department, AVG(salary) FROM employees WHERE hire_date >= '2020-01-01' \
                        GROUP BY department ORDER BY AVG(salary) DESC;";
    tokens = tokenize(sql);
    assert_eq!(tokens.len(), 24);
    assert_eq!(tokens[0], Token::Keyword(KeywordType::Select));
    assert_eq!(tokens[1], Token::Identifier("department".to_string()));
    assert_eq!(tokens[2], Token::Grammar(GrammarType::Comma));
    assert_eq!(tokens[3], Token::Keyword(KeywordType::Avg));
    assert_eq!(tokens[4], Token::Grammar(GrammarType::OpenParen));
    assert_eq!(tokens[5], Token::Identifier("salary".to_string()));
    assert_eq!(tokens[6], Token::Grammar(GrammarType::CloseParen));
    assert_eq!(tokens[7], Token::Keyword(KeywordType::From));
    assert_eq!(tokens[8], Token::Identifier("employees".to_string()));
    assert_eq!(tokens[9], Token::Keyword(KeywordType::Where));
    assert_eq!(tokens[10], Token::Identifier("hire_date".to_string()));
    assert_eq!(tokens[11], Token::Operator(OperatorType::GreaterThanOrEqual));
    assert_eq!(tokens[12], Token::StringLiteral("2020-01-01".to_string()));
    assert_eq!(tokens[13], Token::Keyword(KeywordType::Group));
    assert_eq!(tokens[14], Token::Keyword(KeywordType::By));
    assert_eq!(tokens[15], Token::Identifier("department".to_string()));
    assert_eq!(tokens[16], Token::Keyword(KeywordType::Order));
    assert_eq!(tokens[17], Token::Keyword(KeywordType::By));
    assert_eq!(tokens[18], Token::Keyword(KeywordType::Avg));
    assert_eq!(tokens[19], Token::Grammar(GrammarType::OpenParen));
    assert_eq!(tokens[20], Token::Identifier("salary".to_string()));
    assert_eq!(tokens[21], Token::Grammar(GrammarType::CloseParen));
    assert_eq!(tokens[22], Token::Keyword(KeywordType::Desc));
    assert_eq!(tokens[23], Token::Grammar(GrammarType::Semicolon));

    sql = "SELECT name FROM users WHERE is_adult = TRUE;";
    tokens = tokenize(sql);
    assert_eq!(tokens.len(), 9);
    assert_eq!(tokens[0], Token::Keyword(KeywordType::Select));
    assert_eq!(tokens[1], Token::Identifier("name".to_string()));
    assert_eq!(tokens[2], Token::Keyword(KeywordType::From));
    assert_eq!(tokens[3], Token::Identifier("users".to_string()));
    assert_eq!(tokens[4], Token::Keyword(KeywordType::Where));
    assert_eq!(tokens[5], Token::Identifier("is_adult".to_string()));
    assert_eq!(tokens[6], Token::Operator(OperatorType::Equals));
    assert_eq!(tokens[7], Token::Keyword(KeywordType::True));
    assert_eq!(tokens[8], Token::Grammar(GrammarType::Semicolon));
}

#[test]
fn bare_identifier_after_from_is_rejected() {
    let tokens = tokenize("select * from users;");
    assert_eq!(tokens.len(), 5);
    assert_eq!(tokens[0], Token::Keyword(KeywordType::Select));
    assert_eq!(tokens[1], Token::Grammar(GrammarType::Asterisk));
    assert_eq!(tokens[2], Token::Keyword(KeywordType::From));
    assert_eq!(tokens[3], Token::Identifier("users".to_string()));
    assert_eq!(tokens[4], Token::Grammar(GrammarType::Semicolon));
    let mut parser = Parser::new(tokens);
    let error = parser.parse().unwrap_err();
    assert_eq!(
        error.message,
        "Expected string literal after FROM: Expected a string literal"
    );
    assert_eq!(error.position, 3);
}

#[test]
fn truncated_query_fails_with_end_of_tokens() {
    let tokens = tokenize("SELECT name FROM");
    assert_eq!(tokens.len(), 3);
    let mut parser = Parser::new(tokens);
    let error = parser.parse().unwrap_err();
    assert_eq!(
        error.message,
        "Expected string literal after FROM: Unexpected end of tokens"
    );
    assert_eq!(error.position, 3);
}

#[test]
fn where_clause_precedence_or_over_and() {
    // a = 1 AND b = 2 OR c = 3 groups as (a AND b) OR c
    let tokens = tokenize("SELECT x FROM 'f' WHERE a = 1 AND b = 2 OR c = 3;");
    let mut parser = Parser::new(tokens);
    let response = parser.parse().unwrap();
    let Statement::Select(statement) = response;
    let cmp = |name: &str, value: i64| -> Box<Expr> {
        Box::new(Expr::BinaryOp {
            left: Box::new(Expr::Column(name.to_string())),
            operator: BinaryOperator::Equals,
            right: Box::new(Expr::Literal(Value::Int(value))),
        })
    };
    let expected = Expr::BinaryOp {
        left: Box::new(Expr::BinaryOp {
            left: cmp("a", 1),
            operator: BinaryOperator::And,
            right: cmp("b", 2),
        }),
        operator: BinaryOperator::Or,
        right: cmp("c", 3),
    };
    assert_eq!(statement.where_clause, Some(expected));
}

#[test]
fn where_clause_literals() {
    let tokens = tokenize("SELECT x FROM 'f' WHERE price < 99.99 AND used = FALSE;");
    let mut parser = Parser::new(tokens);
    let Statement::Select(statement) = parser.parse().unwrap();
    let expected = Expr::BinaryOp {
        left: Box::new(Expr::BinaryOp {
            left: Box::new(Expr::Column("price".to_string())),
            operator: BinaryOperator::LessThan,
            right: Box::new(Expr::Literal(Value::Float("99.99".to_string()))),
        }),
        operator: BinaryOperator::And,
        right: Box::new(Expr::BinaryOp {
            left: Box::new(Expr::Column("used".to_string())),
            operator: BinaryOperator::Equals,
            right: Box::new(Expr::Literal(Value::Bool(false))),
        }),
    };
    assert_eq!(statement.where_clause, Some(expected));
}

#[test]
fn order_by_defaults_to_ascending() {
    let tokens = tokenize("SELECT x FROM 'f' ORDER BY a ASC, b DESC, c;");
    let mut parser = Parser::new(tokens);
    let Statement::Select(statement) = parser.parse().unwrap();
    let items = statement.order_by.expect("Expected order by items");
    assert_eq!(items.len(), 3);
    assert_eq!(items[0], OrderByItem { expr: Expr::Column("a".to_string()), asc: true });
    assert_eq!(items[1], OrderByItem { expr: Expr::Column("b".to_string()), asc: false });
    assert_eq!(items[2], OrderByItem { expr: Expr::Column("c".to_string()), asc: true });
}

#[test]
fn aggregate_with_column_argument() {
    let tokens = tokenize("SELECT AVG(salary), MAX(age) FROM 'f';");
    let mut parser = Parser::new(tokens);
    let Statement::Select(statement) = parser.parse().unwrap();
    assert_eq!(statement.columns.len(), 2);
    assert_eq!(
        statement.columns[0],
        SelectItem::Aggregate {
            func: AggregateFunc::Avg,
            expr: Some(Box::new(Expr::Column("salary".to_string()))),
        }
    );
    assert_eq!(
        statement.columns[1],
        SelectItem::Aggregate {
            func: AggregateFunc::Max,
            expr: Some(Box::new(Expr::Column("age".to_string()))),
        }
    );
}

#[test]
fn syntax_error_messages_name_what_was_found() {
    // two items without a comma
    let tokens = tokenize("SELECT a b FROM 'f';");
    let mut parser = Parser::new(tokens);
    let error = parser.parse().unwrap_err();
    assert_eq!(error.message, "Expected comma or FROM, Identifier b found");
    assert_eq!(error.position, 2);

    // an empty projection list
    let tokens = tokenize("SELECT FROM 'f';");
    let mut parser = Parser::new(tokens);
    let error = parser.parse().unwrap_err();
    assert_eq!(error.message, "Expected column, *, or aggregate, found Keyword FROM");
    assert_eq!(error.position, 1);

    // a statement that does not start with SELECT
    let tokens = tokenize("users;");
    let mut parser = Parser::new(tokens);
    let error = parser.parse().unwrap_err();
    assert_eq!(error.message, "Expected SELECT keyword");
    assert_eq!(error.position, 0);

    // an aggregate without its parenthesis
    let tokens = tokenize("SELECT COUNT FROM 'f';");
    let mut parser = Parser::new(tokens);
    let error = parser.parse().unwrap_err();
    assert_eq!(error.message, "Expected grammar element '('");
    assert_eq!(error.position, 2);

    // GROUP not followed by BY
    let tokens = tokenize("SELECT a FROM 'f' GROUP a;");
    let mut parser = Parser::new(tokens);
    let error = parser.parse().unwrap_err();
    assert_eq!(error.message, "Expected keyword 'BY'");
    assert_eq!(error.position, 5);

    // WHERE not followed by a primary
    let tokens = tokenize("SELECT a FROM 'f' WHERE , ;");
    let mut parser = Parser::new(tokens);
    let error = parser.parse().unwrap_err();
    assert_eq!(error.message, "Expected column or literal");
    assert_eq!(error.position, 5);

    // a comparison whose operator is logical, built token by token
    let tokens = vec![
        Token::Keyword(KeywordType::Select),
        Token::Identifier("a".to_string()),
        Token::Keyword(KeywordType::From),
        Token::StringLiteral("f".to_string()),
        Token::Keyword(KeywordType::Where),
        Token::Identifier("a".to_string()),
        Token::Operator(OperatorType::And),
        Token::Integer(1),
        Token::Grammar(GrammarType::Semicolon),
    ];
    let mut parser = Parser::new(tokens);
    let error = parser.parse().unwrap_err();
    assert_eq!(error.message, "Expected comparison operator, found AND");
    assert_eq!(error.position, 6);

    // a comparison with no operator token at all
    let tokens = tokenize("SELECT a FROM 'f' WHERE a 1;");
    let mut parser = Parser::new(tokens);
    let error = parser.parse().unwrap_err();
    assert_eq!(error.message, "Expected operator, found Integer 1");
    assert_eq!(error.position, 6);
}

#[test]
fn projection_count_matches_query() {
    let tokens = tokenize("SELECT one, two, three, four FROM 'f';");
    let mut parser = Parser::new(tokens);
    let Statement::Select(statement) = parser.parse().unwrap();
    assert_eq!(statement.columns.len(), 4);
    for (i, name) in ["one", "two", "three", "four"].iter().enumerate() {
        assert_eq!(statement.columns[i], SelectItem::Column(name.to_string()));
    }
    assert_eq!(statement.from, Some(FromClause { source: "f".to_string() }));
    assert_eq!(statement.where_clause, None);
    assert_eq!(statement.group_by, None);
    assert_eq!(statement.order_by, None);
}
