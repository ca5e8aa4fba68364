use rsql_parser::grammar::{is_grammar_type, GrammarType};
use rsql_parser::keywords::{is_keyword, KeywordType};
use rsql_parser::operators::{is_operator, OperatorType};
use rsql_parser::tokenizer::{state_based_tokenize, tokenize};
use rsql_parser::text::token_text;
use rsql_parser::tokens::Token;

#[test]
fn tokenizer_tokenize_test() {
    let mut sql = "select * from users;";
    let mut tokens = tokenize(sql);
    assert_eq!(tokens.len(), 5);
    assert_eq!(tokens[0], Token::Keyword(KeywordType::Select));
    assert_eq!(tokens[1], Token::Grammar(GrammarType::Asterisk));
    assert_eq!(tokens[2], Token::Keyword(KeywordType::From));
    assert_eq!(tokens[3], Token::Identifier("users".to_string()));
    assert_eq!(tokens[4], Token::Grammar(GrammarType::Semicolon));

    sql = "SELECT name FROM users;";
    tokens = tokenize(sql);
    assert_eq!(tokens.len(), 5);
    assert_eq!(tokens[0], Token::Keyword(KeywordType::Select));
    assert_eq!(tokens[1], Token::Identifier("name".to_string()));
    assert_eq!(tokens[2], Token::Keyword(KeywordType::From));
    assert_eq!(tokens[3], Token::Identifier("users".to_string()));
    assert_eq!(tokens[4], Token::Grammar(GrammarType::Semicolon));

    sql = "SELECT id, name, age FROM employees;";
    tokens = tokenize(sql);
    assert_eq!(tokens.len(), 9);
    assert_eq!(tokens[0], Token::Keyword(KeywordType::Select));
    assert_eq!(tokens[1], Token::Identifier("id".to_string()));
    assert_eq!(tokens[2], Token::Grammar(GrammarType::Comma));
    assert_eq!(tokens[3], Token::Identifier("name".to_string()));
    assert_eq!(tokens[4], Token::Grammar(GrammarType::Comma));
    assert_eq!(tokens[5], Token::Identifier("age".to_string()));
    assert_eq!(tokens[6], Token::Keyword(KeywordType::From));
    assert_eq!(tokens[7], Token::Identifier("employees".to_string()));
    assert_eq!(tokens[8], Token::Grammar(GrammarType::Semicolon));

    sql = "SELECT name, salary FROM employees WHERE salary > 50000";
    tokens = tokenize(sql);
    assert_eq!(tokens.len(), 10);
    assert_eq!(tokens[0], Token::Keyword(KeywordType::Select));
    assert_eq!(tokens[1], Token::Identifier("name".to_string()));
    assert_eq!(tokens[2], Token::Grammar(GrammarType::Comma));
    assert_eq!(tokens[3], Token::Identifier("salary".to_string()));
    assert_eq!(tokens[4], Token::Keyword(KeywordType::From));
    assert_eq!(tokens[5], Token::Identifier("employees".to_string()));
    assert_eq!(tokens[6], Token::Keyword(KeywordType::Where));
    assert_eq!(tokens[7], Token::Identifier("salary".to_string()));
    assert_eq!(tokens[8], Token::Operator(OperatorType::GreaterThan));
    assert_eq!(tokens[9], Token::Integer(50000));

    // a quoted string keeps its quotes while scanned and loses them when
    // the word is classified, so 'HR' is a string literal, not an
    // identifier
    sql = "SELECT name FROM employees WHERE department = 'HR' AND salary >= 40000;";
    tokens = tokenize(sql);
    assert_eq!(tokens.len(), 13);
    assert_eq!(tokens[0], Token::Keyword(KeywordType::Select));
    assert_eq!(tokens[1], Token::Identifier("name".to_string()));
    assert_eq!(tokens[2], Token::Keyword(KeywordType::From));
    assert_eq!(tokens[3], Token::Identifier("employees".to_string()));
    assert_eq!(tokens[4], Token::Keyword(KeywordType::Where));
    assert_eq!(tokens[5], Token::Identifier("department".to_string()));
    assert_eq!(tokens[6], Token::Operator(OperatorType::Equals));
    assert_eq!(tokens[7], Token::StringLiteral("HR".to_string()));
    assert_eq!(tokens[8], Token::Keyword(KeywordType::And));
    assert_eq!(tokens[9], Token::Identifier("salary".to_string()));
    assert_eq!(tokens[10], Token::Operator(OperatorType::GreaterThanOrEqual));
    assert_eq!(tokens[11], Token::Integer(40000));
    assert_eq!(tokens[12], Token::Grammar(GrammarType::Semicolon));

    sql = "SELECT name, age FROM users ORDER BY age DESC;";
    tokens = tokenize(sql);
    assert_eq!(tokens.len(), 11);
    assert_eq!(tokens[0], Token::Keyword(KeywordType::Select));
    assert_eq!(tokens[1], Token::Identifier("name".to_string()));
    assert_eq!(tokens[2], Token::Grammar(GrammarType::Comma));
    assert_eq!(tokens[3], Token::Identifier("age".to_string()));
    assert_eq!(tokens[4], Token::Keyword(KeywordType::From));
    assert_eq!(tokens[5], Token::Identifier("users".to_string()));
    assert_eq!(tokens[6], Token::Keyword(KeywordType::Order));
    assert_eq!(tokens[7], Token::Keyword(KeywordType::By));
    assert_eq!(tokens[8], Token::Identifier("age".to_string()));
    assert_eq!(tokens[9], Token::Keyword(KeywordType::Desc));
    assert_eq!(tokens[10], Token::Grammar(GrammarType::Semicolon));

    sql = "SELECT department, COUNT(*) FROM employees GROUP BY department;";
    tokens = tokenize(sql);
    assert_eq!(tokens.len(), 13);
    assert_eq!(tokens[0], Token::Keyword(KeywordType::Select));
    assert_eq!(tokens[1], Token::Identifier("department".to_string()));
    assert_eq!(tokens[2], Token::Grammar(GrammarType::Comma));
    assert_eq!(tokens[3], Token::Keyword(KeywordType::Count));
    assert_eq!(tokens[4], Token::Grammar(GrammarType::OpenParen));
    assert_eq!(tokens[5], Token::Grammar(GrammarType::Asterisk));
    assert_eq!(tokens[6], Token::Grammar(GrammarType::CloseParen));
    assert_eq!(tokens[7], Token::Keyword(KeywordType::From));
    assert_eq!(tokens[8], Token::Identifier("employees".to_string()));
    assert_eq!(tokens[9], Token::Keyword(KeywordType::Group));
    assert_eq!(tokens[10], Token::Keyword(KeywordType::By));
    assert_eq!(tokens[11], Token::Identifier("department".to_string()));
    assert_eq!(tokens[12], Token::Grammar(GrammarType::Semicolon));

    sql = "SELECT name FROM users WHERE (age > 18 AND city = 'Delhi') OR city = 'Mumbai';";
    tokens = tokenize(sql);
    assert_eq!(tokens.len(), 19);
    assert_eq!(tokens[0], Token::Keyword(KeywordType::Select));
    assert_eq!(tokens[1], Token::Identifier("name".to_string()));
    assert_eq!(tokens[2], Token::Keyword(KeywordType::From));
    assert_eq!(tokens[3], Token::Identifier("users".to_string()));
    assert_eq!(tokens[4], Token::Keyword(KeywordType::Where));
    assert_eq!(tokens[5], Token::Grammar(GrammarType::OpenParen));
    assert_eq!(tokens[6], Token::Identifier("age".to_string()));
    assert_eq!(tokens[7], Token::Operator(OperatorType::GreaterThan));
    assert_eq!(tokens[8], Token::Integer(18));
    assert_eq!(tokens[9], Token::Keyword(KeywordType::And));
    assert_eq!(tokens[10], Token::Identifier("city".to_string()));
    assert_eq!(tokens[11], Token::Operator(OperatorType::Equals));
    assert_eq!(tokens[12], Token::StringLiteral("Delhi".to_string()));
    assert_eq!(tokens[13], Token::Grammar(GrammarType::CloseParen));
    assert_eq!(tokens[14], Token::Keyword(KeywordType::Or));
    assert_eq!(tokens[15], Token::Identifier("city".to_string()));
    assert_eq!(tokens[16], Token::Operator(OperatorType::Equals));
    assert_eq!(tokens[17], Token::StringLiteral("Mumbai".to_string()));
    assert_eq!(tokens[18], Token::Grammar(GrammarType::Semicolon));

    sql = "SELECT name FROM users WHERE city = 'New York';";
    tokens = tokenize(sql);
    assert_eq!(tokens.len(), 9);
    assert_eq!(tokens[0], Token::Keyword(KeywordType::Select));
    assert_eq!(tokens[1], Token::Identifier("name".to_string()));
    assert_eq!(tokens[2], Token::Keyword(KeywordType::From));
    assert_eq!(tokens[3], Token::Identifier("users".to_string()));
    assert_eq!(tokens[4], Token::Keyword(KeywordType::Where));
    assert_eq!(tokens[5], Token::Identifier("city".to_string()));
    assert_eq!(tokens[6], Token::Operator(OperatorType::Equals));
    assert_eq!(tokens[7], Token::StringLiteral("New York".to_string()));
    assert_eq!(tokens[8], Token::Grammar(GrammarType::Semicolon));

    sql = "SELECT name, price FROM products WHERE price < 99.99;";
    tokens = tokenize(sql);
    assert_eq!(tokens.len(), 11);
    assert_eq!(tokens[0], Token::Keyword(KeywordType::Select));
    assert_eq!(tokens[1], Token::Identifier("name".to_string()));
    assert_eq!(tokens[2], Token::Grammar(GrammarType::Comma));
    assert_eq!(tokens[3], Token::Identifier("price".to_string()));
    assert_eq!(tokens[4], Token::Keyword(KeywordType::From));
    assert_eq!(tokens[5], Token::Identifier("products".to_string()));
    assert_eq!(tokens[6], Token::Keyword(KeywordType::Where));
    assert_eq!(tokens[7], Token::Identifier("price".to_string()));
    assert_eq!(tokens[8], Token::Operator(OperatorType::SmallerThan));
    assert_eq!(tokens[9], Token::Float("99.99".to_string()));
    assert_eq!(tokens[10], Token::Grammar(GrammarType::Semicolon));

    sql = "SELECT department, AVG(salary) FROM employees WHERE hire_date >= '2020-01-01' \
                        GROUP BY department ORDER BY AVG(salary) DESC;";
    tokens = tokenize(sql);
    assert_eq!(tokens.len(), 24);
    assert_eq!(tokens[0], Token::Keyword(KeywordType::Select));
    assert_eq!(tokens[1], Token::Identifier("department".to_string()));
    assert_eq!(tokens[2], Token::Grammar(GrammarType::Comma));
    assert_eq!(tokens[3], Token::Keyword(KeywordType::Avg));
    assert_eq!(tokens[4], Token::Grammar(GrammarType::OpenParen));
    assert_eq!(tokens[5], Token::Identifier("salary".to_string()));
    assert_eq!(tokens[6], Token::Grammar(GrammarType::CloseParen));
    assert_eq!(tokens[7], Token::Keyword(KeywordType::From));
    assert_eq!(tokens[8], Token::Identifier("employees".to_string()));
    assert_eq!(tokens[9], Token::Keyword(KeywordType::Where));
    assert_eq!(tokens[10], Token::Identifier("hire_date".to_string()));
    assert_eq!(tokens[11], Token::Operator(OperatorType::GreaterThanOrEqual));
    assert_eq!(tokens[12], Token::StringLiteral("2020-01-01".to_string()));
    assert_eq!(tokens[13], Token::Keyword(KeywordType::Group));
    assert_eq!(tokens[14], Token::Keyword(KeywordType::By));
    assert_eq!(tokens[15], Token::Identifier("department".to_string()));
    assert_eq!(tokens[16], Token::Keyword(KeywordType::Order));
    assert_eq!(tokens[17], Token::Keyword(KeywordType::By));
    assert_eq!(tokens[18], Token::Keyword(KeywordType::Avg));
    assert_eq!(tokens[19], Token::Grammar(GrammarType::OpenParen));
    assert_eq!(tokens[20], Token::Identifier("salary".to_string()));
    assert_eq!(tokens[21], Token::Grammar(GrammarType::CloseParen));
    assert_eq!(tokens[22], Token::Keyword(KeywordType::Desc));
    assert_eq!(tokens[23], Token::Grammar(GrammarType::Semicolon));
}

#[test]
fn keyword_any_case_is_never_an_identifier() {
    for sql in ["select;", "SELECT;", "SeLeCt;", "sELECT;"] {
        let tokens = tokenize(sql);
        assert_eq!(tokens.len(), 2);
        assert_eq!(tokens[0], Token::Keyword(KeywordType::Select));
        assert_eq!(tokens[1], Token::Grammar(GrammarType::Semicolon));
    }
}

#[test]
fn second_decimal_point_is_a_lexical_error() {
    let result = state_based_tokenize("SELECT 3.1.4 FROM 'x';");
    let error = result.unwrap_err();
    assert_eq!(error.message, "More than one decimals in number");
}

#[test]
fn unexpected_character_is_a_lexical_error() {
    let error = state_based_tokenize("SELECT # FROM 'x';").unwrap_err();
    assert_eq!(error.message, "Unexpected character");

    let error = state_based_tokenize("SELECT a# FROM 'x';").unwrap_err();
    assert_eq!(error.message, "Unexpected character");

    let error = state_based_tokenize("SELECT 12# FROM 'x';").unwrap_err();
    assert_eq!(error.message, "Unexpected character");

    let error = state_based_tokenize("a =# 1;").unwrap_err();
    assert_eq!(error.message, "Unexpected character in operator");
}

#[test]
fn integer_bounds_decide_integer_versus_float() {
    let tokens = tokenize("9223372036854775807;");
    assert_eq!(tokens[0], Token::Integer(9223372036854775807));

    // one past the largest integer: the all-digit word no longer fits
    let tokens = tokenize("9223372036854775808;");
    assert_eq!(tokens[0], Token::Float("9223372036854775808".to_string()));

    let tokens = tokenize("0.5;");
    assert_eq!(tokens[0], Token::Float("0.5".to_string()));

    let tokens = tokenize("007;");
    assert_eq!(tokens[0], Token::Integer(7));
}

#[test]
fn operator_followed_directly_by_number() {
    // the digit terminates the operator word and begins the number
    let tokens = tokenize("SELECT name FROM 'x' WHERE salary >=40000;");
    assert_eq!(tokens.len(), 9);
    assert_eq!(tokens[6], Token::Operator(OperatorType::GreaterThanOrEqual));
    assert_eq!(tokens[7], Token::Integer(40000));
    assert_eq!(tokens[8], Token::Grammar(GrammarType::Semicolon));
}

#[test]
fn not_equals_spelling() {
    let tokens = tokenize("a <> b;");
    assert_eq!(tokens[1], Token::Operator(OperatorType::NotEquals));
    let tokens = tokenize("a <= b;");
    assert_eq!(tokens[1], Token::Operator(OperatorType::SmallerThanOrEqual));
}

#[test]
fn whitespace_is_trimmed_and_skipped() {
    let tokens = tokenize("   select \t name\nfrom users;  ");
    assert_eq!(tokens.len(), 5);
    assert_eq!(tokens[0], Token::Keyword(KeywordType::Select));
    assert_eq!(tokens[1], Token::Identifier("name".to_string()));
    assert_eq!(tokens[2], Token::Keyword(KeywordType::From));
    assert_eq!(tokens[3], Token::Identifier("users".to_string()));
    assert_eq!(tokens[4], Token::Grammar(GrammarType::Semicolon));

    let tokens = tokenize("");
    assert_eq!(tokens.len(), 0);
}

#[test]
fn identifiers_may_hold_letters_beyond_ascii() {
    let tokens = tokenize("select naïve from 'x';");
    assert_eq!(tokens.len(), 5);
    assert_eq!(tokens[1], Token::Identifier("naïve".to_string()));
}

#[test]
fn whitespace_beyond_ascii_is_trimmed_at_the_edges() {
    // an em space is whitespace to trim but not a scanner terminator
    let tokens = tokenize("\u{2003}select;\u{2003}");
    assert_eq!(tokens.len(), 2);
    assert_eq!(tokens[0], Token::Keyword(KeywordType::Select));
    assert_eq!(tokens[1], Token::Grammar(GrammarType::Semicolon));
}

#[test]
fn concatenated_queries_tokenize_to_concatenated_tokens() {
    let q1 = "select a from 'x'";
    let q2 = "select b from 'y';";
    let mut joined = String::new();
    joined.push_str(q1);
    joined.push_str(";");
    joined.push_str(q2);
    let mut expected = tokenize(q1);
    expected.push(Token::Grammar(GrammarType::Semicolon));
    expected.extend(tokenize(q2));
    assert_eq!(tokenize(&joined), expected);
}

#[test]
fn word_classifiers() {
    assert_eq!(is_keyword("select"), Some(KeywordType::Select));
    assert_eq!(is_keyword("FALSE"), Some(KeywordType::False));
    assert_eq!(is_keyword("sum"), Some(KeywordType::Sum));
    assert_eq!(is_keyword("selec"), None);
    assert_eq!(is_keyword("selects"), None);

    assert_eq!(is_grammar_type("*"), Some(GrammarType::Asterisk));
    assert_eq!(is_grammar_type(";"), Some(GrammarType::Semicolon));
    assert_eq!(is_grammar_type("**"), None);

    assert_eq!(is_operator("="), Some(OperatorType::Equals));
    assert_eq!(is_operator(">="), Some(OperatorType::GreaterThanOrEqual));
    assert_eq!(is_operator("<>"), Some(OperatorType::NotEquals));
    assert_eq!(is_operator("&&"), Some(OperatorType::And));
    assert_eq!(is_operator("||"), Some(OperatorType::Or));
    assert_eq!(is_operator("*"), Some(OperatorType::Multiply));
    assert_eq!(is_operator("=="), None);
}

#[test]
fn token_display_text() {
    assert_eq!(token_text(&Token::Keyword(KeywordType::Select)), "Keyword SELECT");
    assert_eq!(token_text(&Token::Identifier("users".to_string())), "Identifier users");
    assert_eq!(token_text(&Token::Integer(50000)), "Integer 50000");
    assert_eq!(token_text(&Token::Integer(-42)), "Integer -42");
    assert_eq!(token_text(&Token::Integer(0)), "Integer 0");
    assert_eq!(token_text(&Token::Integer(i64::MIN)), "Integer -9223372036854775808");
    assert_eq!(token_text(&Token::Float("99.99".to_string())), "Float 99.99");
    assert_eq!(token_text(&Token::StringLiteral("HR".to_string())), "String literal HR");
    assert_eq!(token_text(&Token::Grammar(GrammarType::Comma)), "Grammar marker ,");
    assert_eq!(token_text(&Token::Operator(OperatorType::NotEquals)), "Operator !=");
}
