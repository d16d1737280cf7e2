use installer_analysis::burn::condition::InstallCondition;
use installer_analysis::burn::expr::{Bindings, Expr, Value};
use installer_analysis::burn::parser::{same_token, Parser};
use installer_analysis::burn::token::{tokenize, Token};
use installer_analysis::error::AnalysisError;

fn bindings(pairs: &[(&str, Value)]) -> Bindings {
    let mut b = Bindings::new();
    for (name, value) in pairs {
        b.insert(name, *value);
    }
    b
}

fn eval(input: &str, pairs: &[(&str, Value)]) -> bool {
    InstallCondition::new(input).unwrap().evaluate(&bindings(pairs))
}

fn assert_tokens(input: &str, expected: &[Token]) {
    let tokens = tokenize(input);
    assert_eq!(tokens.len(), expected.len(), "{:?}", tokens);
    for (a, b) in tokens.iter().zip(expected.iter()) {
        assert!(same_token(a, b), "{:?} != {:?}", a, b);
    }
}

#[test]
fn and_not_with_booleans() {
    assert!(eval("A AND NOT B", &[("A", Value::Bool(true)), ("B", Value::Bool(false))]));
}

#[test]
fn unbound_variable_in_equality_is_true() {
    assert!(eval("X=1", &[]));
}

#[test]
fn unbound_variable_is_true() {
    assert!(eval("X", &[]));
    assert!(!eval("NOT X", &[]));
}

#[test]
fn or_of_equalities() {
    assert!(eval("X=0 OR Y=1", &[("X", Value::Int(1)), ("Y", Value::Int(1))]));
    assert!(!eval("X=0 OR Y=0", &[("X", Value::Int(1)), ("Y", Value::Int(1))]));
}

#[test]
fn parentheses_override_precedence() {
    let vars = [("A", Value::Bool(false)), ("B", Value::Bool(true)), ("C", Value::Bool(true))];
    assert!(!eval("(A OR B) AND NOT C", &vars));
}

#[test]
fn and_binds_tighter_than_or() {
    let vars = [("A", Value::Bool(false)), ("B", Value::Bool(true)), ("C", Value::Bool(true))];
    assert!(eval("A OR B AND NOT C", &[("A", Value::Bool(true)), ("B", Value::Bool(true)), ("C", Value::Bool(true))]));
    assert!(!eval("A OR B AND NOT C", &vars));
    assert!(eval("A OR B AND NOT C", &[("A", Value::Bool(true)), ("B", Value::Bool(false)), ("C", Value::Bool(true))]));
}

#[test]
fn equality_on_boolean_compares_with_one() {
    assert!(eval("X=1", &[("X", Value::Bool(true))]));
    assert!(!eval("X=1", &[("X", Value::Bool(false))]));
    assert!(eval("X=0", &[("X", Value::Bool(false))]));
    assert!(eval("X=7", &[("X", Value::Bool(false))]));
    assert!(!eval("X=7", &[("X", Value::Bool(true))]));
}

#[test]
fn integer_variable_is_true_when_not_zero() {
    assert!(eval("X", &[("X", Value::Int(5))]));
    assert!(!eval("X", &[("X", Value::Int(0))]));
}

#[test]
fn later_binding_replaces_earlier() {
    assert!(eval("X=2", &[("X", Value::Int(1)), ("X", Value::Int(2))]));
}

#[test]
fn tokenize_punctuation_numbers_and_words() {
    assert_tokens(
        "(Version=12)AND NOT x86",
        &[
            Token::LParen,
            Token::Ident("Version".to_string()),
            Token::Eq,
            Token::Number(12),
            Token::RParen,
            Token::And,
            Token::Not,
            Token::Ident("x86".to_string()),
        ],
    );
}

#[test]
fn tokenize_digit_starts_a_number_and_word_follows() {
    assert_tokens("12ab", &[Token::Number(12), Token::Ident("ab".to_string())]);
    assert_tokens("ab12", &[Token::Ident("ab12".to_string())]);
}

#[test]
fn tokenize_keywords_are_case_sensitive() {
    assert_tokens(
        "and OR Not ANDY",
        &[
            Token::Ident("and".to_string()),
            Token::Or,
            Token::Ident("Not".to_string()),
            Token::Ident("ANDY".to_string()),
        ],
    );
}

#[test]
fn tokenize_unicode_whitespace_separates() {
    assert_tokens(
        "A\tAND\u{00A0}B\u{3000}\n",
        &[Token::Ident("A".to_string()), Token::And, Token::Ident("B".to_string())],
    );
    assert_tokens("", &[]);
    assert_tokens("   ", &[]);
}

#[test]
fn tokenize_non_ascii_identifier() {
    assert_tokens("Gr\u{00F6}\u{00DF}e=3", &[
        Token::Ident("Gr\u{00F6}\u{00DF}e".to_string()),
        Token::Eq,
        Token::Number(3),
    ]);
}

#[test]
fn number_wraps_modulo_two_to_the_32() {
    assert_tokens("4294967295", &[Token::Number(4294967295)]);
    assert_tokens("4294967296", &[Token::Number(0)]);
    assert_tokens("4294967301", &[Token::Number(5)]);
}

#[test]
fn malformed_conditions_are_errors() {
    for input in ["", "   ", "(A", "A =", "A = B", "AND", "A AND", "A OR", ")", "NOT", "=1", "(", "NOT NOT A", "5"] {
        match InstallCondition::new(input) {
            Err(e) => assert_eq!(e, AnalysisError::MalformedExpression, "{input}"),
            Ok(c) => panic!("{input} parsed as {:?}", c),
        }
    }
}

#[test]
fn tokens_behind_the_expression_are_not_read() {
    assert!(eval("A B", &[("A", Value::Bool(true)), ("B", Value::Bool(false))]));
    assert!(!eval("A )", &[("A", Value::Bool(false))]));
}

#[test]
fn parser_positions() {
    let mut parser = Parser::new(tokenize("(A) AND B C"));
    assert!(parser.peek().is_some());
    let expr = parser.parse_expr().unwrap();
    assert_eq!(parser.pos, 5);
    match expr {
        Expr::And(lhs, rhs) => {
            assert!(matches!(*lhs, Expr::Var(ref n) if n == "A"));
            assert!(matches!(*rhs, Expr::Var(ref n) if n == "B"));
        }
        other => panic!("{:?}", other),
    }
    assert_eq!(parser.expect(&Token::RParen), Err(AnalysisError::MalformedExpression));
    assert_eq!(parser.pos, 5);
    assert_eq!(parser.expect(&Token::Ident("C".to_string())), Ok(()));
    assert_eq!(parser.pos, 6);
    parser.advance();
    assert_eq!(parser.pos, 6);
    assert!(parser.peek().is_none());
}

#[test]
fn operators_associate_to_the_left() {
    let condition = InstallCondition::new("A OR B OR C").unwrap();
    match condition.inner() {
        Expr::Or(lhs, rhs) => {
            assert!(matches!(**lhs, Expr::Or(_, _)));
            assert!(matches!(**rhs, Expr::Var(ref n) if n == "C"));
        }
        other => panic!("{:?}", other),
    }
}

#[test]
fn first_unbound_names_the_leftmost_missing_variable() {
    let condition = InstallCondition::new("A AND (B=2 OR NOT C)").unwrap();
    let vars = bindings(&[("A", Value::Bool(true))]);
    assert_eq!(condition.inner().first_unbound(&vars), Some("B".to_string()));
    let vars = bindings(&[("A", Value::Bool(true)), ("B", Value::Int(2)), ("C", Value::Int(0))]);
    assert_eq!(condition.inner().first_unbound(&vars), None);
    assert_eq!(vars.get("B").map(|v| matches!(v, Value::Int(2))), Some(true));
    assert!(vars.get("Z").is_none());
}

#[test]
fn negation_free_condition_is_true_without_bindings() {
    assert!(eval("(A AND B=3) OR C", &[]));
}
