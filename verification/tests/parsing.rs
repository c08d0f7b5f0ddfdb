//! Parser and scanner behaviour, including render/parse round trips.

use minilang::expression::{BinOp, ExpectedType, Expr, UnOp};
use minilang::parse::{ParseError, Parser};
use minilang::tokenize::{Token, Tokenizer};

#[test]
fn parse_num() {
    let expr: Expr = Parser::new("233425").expr().unwrap();
    assert_eq!(expr, Expr::Int(233425),);
}

#[test]
fn tokenize_mixed_input() {
    let tokens = Tokenizer::new("let x1 = 42; x1 <= bool").tokenize().unwrap();
    assert_eq!(
        tokens,
        vec![
            Token::Keyword("let".to_string()),
            Token::Ident("x1".to_string()),
            Token::Symbol("=".to_string()),
            Token::Int(42),
            Token::Symbol(";".to_string()),
            Token::Ident("x1".to_string()),
            Token::Symbol("<=".to_string()),
            Token::Type("bool".to_string()),
        ]
    );
}

#[test]
fn tokenize_brackets_split_but_operators_join() {
    let tokens = Tokenizer::new("((->))").tokenize().unwrap();
    assert_eq!(
        tokens,
        vec![
            Token::Symbol("(".to_string()),
            Token::Symbol("(".to_string()),
            Token::Symbol("->".to_string()),
            Token::Symbol(")".to_string()),
            Token::Symbol(")".to_string()),
        ]
    );
}

#[test]
fn tokenize_overflowing_literal_fails() {
    assert_eq!(Tokenizer::new("99999999999999999999").tokenize(), None);
    assert_eq!(
        Parser::new("99999999999999999999").expr(),
        Err(ParseError::InvalidNumber)
    );
}

#[test]
fn tokenize_max_literal_is_kept() {
    let tokens = Tokenizer::new("9223372036854775807").tokenize().unwrap();
    assert_eq!(tokens, vec![Token::Int(i64::MAX)]);
}

#[test]
fn parse_precedence_and_associativity() {
    let expr = Parser::new("1 + 2 * 3 - 4").expr().unwrap();
    assert_eq!(
        expr,
        Expr::binop(
            BinOp::Minus,
            Expr::binop(
                BinOp::Plus,
                Expr::integer(1),
                Expr::binop(BinOp::Mult, Expr::integer(2), Expr::integer(3)),
            ),
            Expr::integer(4),
        )
    );
}

#[test]
fn parse_unary_and_application() {
    let expr = Parser::new("-f(2)").expr().unwrap();
    assert_eq!(
        expr,
        Expr::unaryop(
            UnOp::Neg,
            Expr::app(Expr::ident("f".to_string()), Expr::integer(2)),
        )
    );
}

#[test]
fn parse_function_type_is_right_associative() {
    let expr = Parser::new("let f: int -> int -> bool = g; f").prog().unwrap();
    let expected_ty = ExpectedType::func(
        ExpectedType::Int,
        ExpectedType::func(ExpectedType::Int, ExpectedType::Bool),
    );
    match &expr {
        Expr::Program(stmts, _) => match &stmts[0] {
            Expr::Assign(name, ty, _) => {
                assert_eq!(name, "f");
                assert_eq!(*ty, expected_ty);
            }
            other => panic!("expected a binding, got {:?}", other),
        },
        other => panic!("expected a program, got {:?}", other),
    }
}

#[test]
fn parse_error_on_missing_paren() {
    assert!(Parser::new("(1 + 2").expr().is_err());
}

#[test]
fn parse_error_on_empty_input() {
    assert!(Parser::new("").expr().is_err());
}

#[test]
fn roundtrip_arithmetic() {
    let first = Parser::new("1 + 2 * 3 - 4 / 2").prog().unwrap();
    let text = first.to_string();
    let second = Parser::new(&text).prog().unwrap();
    assert_eq!(first, second);
}

#[test]
fn roundtrip_bindings_and_application() {
    let src = "let a = 2; let b = a + 1; a * b";
    let first = Parser::new(src).prog().unwrap();
    let text = first.to_string();
    let second = Parser::new(&text).prog().unwrap();
    assert_eq!(first, second);
}

#[test]
fn roundtrip_lambda_if_and_function_types() {
    let src = "let f: int -> int = lambda (n: int) { if (n == 1 || n == 2) { 1 } else { f(n-1) + f(n-2) } }; f(10)";
    let first = Parser::new(src).prog().unwrap();
    let text = first.to_string();
    let second = Parser::new(&text).prog().unwrap();
    assert_eq!(first, second);
}

#[test]
fn roundtrip_unannotated_lambda_and_logic() {
    let src = "let f = lambda (v) { !v && true }; f(false || true)";
    let first = Parser::new(src).prog().unwrap();
    let text = first.to_string();
    let second = Parser::new(&text).prog().unwrap();
    assert_eq!(first, second);
}
