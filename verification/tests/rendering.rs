//! Textual renderings of expressions, types, values and statements.

use minilang::ast;
use minilang::eval::Eval;
use minilang::expression::{BinOp, ExpectedType, Expr, UnOp};
use minilang::internal_value::Value;
use minilang::parse::Parser;
use minilang::statement::Statement;
use minilang::types::Type;

#[test]
fn expression_rendering_is_parenthesised() {
    let e = Parser::new("1 + 2 * 3").expr().unwrap();
    assert_eq!(e.to_string(), "(1 + (2 * 3))");
}

#[test]
fn program_rendering_keeps_bindings_in_order() {
    let e = Parser::new("let a = 2; let b = a + 1; a * b").prog().unwrap();
    assert_eq!(e.to_string(), "let a = 2; let b = (a + 1); (a * b)");
}

#[test]
fn lambda_and_if_rendering() {
    let e = Parser::new("lambda (n: int) { if (n == 1) { 1 } else { 0 } }")
        .expr()
        .unwrap();
    // The lambda body is a program with no bindings, whose rendering
    // starts with its own separating space.
    assert_eq!(
        e.to_string(),
        "lambda (n:int) {  if ((n == 1)) { 1 } else { 0 } }"
    );
}

#[test]
fn unary_and_application_rendering() {
    let e = Expr::unaryop(
        UnOp::Not,
        Expr::app(Expr::ident("f".to_string()), Expr::integer(3)),
    );
    assert_eq!(e.to_string(), "!f(3)");
}

#[test]
fn negative_integer_rendering() {
    assert_eq!(Expr::integer(-12).to_string(), "-12");
    assert_eq!(Expr::integer(0).to_string(), "0");
    assert_eq!(Expr::integer(i64::MIN).to_string(), "-9223372036854775808");
}

#[test]
fn annotation_rendering() {
    assert_eq!(ExpectedType::Unknown.to_string(), "?");
    assert_eq!(
        ExpectedType::func(ExpectedType::Int, ExpectedType::Bool).to_string(),
        "(int -> bool)"
    );
}

#[test]
fn type_rendering() {
    assert_eq!(Type::Int.to_string(), "int");
    assert_eq!(
        Type::func(Type::Int, Type::func(Type::Int, Type::Bool)).to_string(),
        "(int -> (int -> bool))"
    );
    assert_eq!(Type::TypeVar(17).to_string(), "t17");
}

#[test]
fn value_rendering() {
    assert_eq!(Value::Int(-5).to_string(), "-5");
    assert_eq!(Value::Bool(true).to_string(), "true");
    let ast = Parser::new("lambda (x) { x }").prog().unwrap();
    let closure = Eval::new().eval(&ast).unwrap();
    assert_eq!(closure.to_string(), "lambda (x)");
}

#[test]
fn operator_only_tree_rendering() {
    let e = ast::Expr::BinPlus(
        Box::new(ast::Expr::integer(1)),
        Box::new(ast::Expr::UnaryNot(Box::new(ast::Expr::boolean(true)))),
    );
    assert_eq!(e.to_string(), "(Int(1) + !true)");
}

#[test]
fn statement_rendering() {
    let st = Statement::AssignAndConseq(
        "x".to_string(),
        Expr::integer(2),
        Box::new(Statement::Expression(Expr::binop(
            BinOp::Plus,
            Expr::ident("x".to_string()),
            Expr::integer(1),
        ))),
    );
    assert_eq!(st.to_string(), "let x = 2; (x + 1)");
}
