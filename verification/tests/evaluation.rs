//! Evaluator behaviour: values, scoping, closures, and errors.

use minilang::eval::{Eval, EvalError};
use minilang::expression::{BinOp, ExpectedType, Expr, UnOp};
use minilang::internal_value::Value;
use minilang::parse::Parser;

fn run(src: &str) -> Result<Value, EvalError> {
    let ast = Parser::new(src).prog().unwrap();
    Eval::new().eval(&ast)
}

#[test]
fn bindings_then_product() {
    assert_eq!(run("let a = 2; let b = a + 1; a * b"), Ok(Value::Int(6)));
}

#[test]
fn bindings_then_product_built_by_hand() {
    let ast = Expr::program(
        vec![
            Expr::assign("a".to_string(), ExpectedType::Unknown, Expr::integer(2)),
            Expr::assign(
                "b".to_string(),
                ExpectedType::Unknown,
                Expr::binop(BinOp::Plus, Expr::ident("a".to_string()), Expr::integer(1)),
            ),
        ],
        Expr::binop(
            BinOp::Mult,
            Expr::ident("a".to_string()),
            Expr::ident("b".to_string()),
        ),
    );
    assert_eq!(Eval::new().eval(&ast), Ok(Value::Int(6)));
}

#[test]
fn recursive_fibonacci() {
    let src = "let f: int -> int = lambda (n: int) { if (n == 1 || n == 2) { 1 } else { f(n-1) + f(n-2) } }; f(10)";
    assert_eq!(run(src), Ok(Value::Int(55)));
}

#[test]
fn closure_sees_binding_added_after_capture() {
    // The closure shares its captured scope with the sequence that is
    // still running, so it observes `w` bound after the lambda
    // literal but before the call.
    assert_eq!(
        run("let f = lambda (v) { v + w }; let w = 5; f(2)"),
        Ok(Value::Int(7))
    );
}

#[test]
fn evaluator_checks_shapes_not_declared_types() {
    // Without a prior inference pass, applying a closure whose
    // parameter is declared `int` to a boolean is not rejected: the
    // evaluator looks at value shapes only.
    assert_eq!(
        run("let f = lambda (x: int) { x && true }; f(true)"),
        Ok(Value::Bool(true))
    );
}

#[test]
fn nested_closures_capture_their_own_scopes() {
    let src = "let w = true; let f = lambda (w) { lambda (v) { v } }; f(1)(9)";
    assert_eq!(run(src), Ok(Value::Int(9)));
}

#[test]
fn binding_evaluates_to_its_value() {
    assert_eq!(run("let a = 41; a + 1"), Ok(Value::Int(42)));
}

#[test]
fn comparison_and_logic_values() {
    assert_eq!(run("1 < 2"), Ok(Value::Bool(true)));
    assert_eq!(run("2 <= 1"), Ok(Value::Bool(false)));
    assert_eq!(run("3 == 3"), Ok(Value::Bool(true)));
    assert_eq!(run("3 != 3"), Ok(Value::Bool(false)));
    assert_eq!(run("true && false"), Ok(Value::Bool(false)));
    assert_eq!(run("false || true"), Ok(Value::Bool(true)));
    assert_eq!(run("!false"), Ok(Value::Bool(true)));
    assert_eq!(run("-7"), Ok(Value::Int(-7)));
}

#[test]
fn arithmetic_values() {
    assert_eq!(run("7 / 2"), Ok(Value::Int(3)));
    assert_eq!(run("0 - 7 / 2"), Ok(Value::Int(-3)));
    assert_eq!(run("10 - 4 - 3"), Ok(Value::Int(3)));
}

#[test]
fn undefined_variable_is_an_error() {
    assert_eq!(run("x"), Err(EvalError::UndefinedVariable));
}

#[test]
fn division_by_zero_is_an_error() {
    assert_eq!(run("1 / 0"), Err(EvalError::DivisionByZero));
}

#[test]
fn addition_overflow_is_an_error() {
    assert_eq!(
        run("9223372036854775807 + 1"),
        Err(EvalError::ArithmeticOverflow)
    );
}

#[test]
fn negating_the_minimum_is_an_error() {
    let ast = Expr::unaryop(UnOp::Neg, Expr::integer(i64::MIN));
    assert_eq!(Eval::new().eval(&ast), Err(EvalError::ArithmeticOverflow));
}

#[test]
fn division_overflow_is_an_error() {
    let ast = Expr::binop(BinOp::Div, Expr::integer(i64::MIN), Expr::integer(-1));
    assert_eq!(Eval::new().eval(&ast), Err(EvalError::ArithmeticOverflow));
}

#[test]
fn non_bool_condition_is_an_error() {
    assert_eq!(
        run("if (1) { 2 } else { 3 }"),
        Err(EvalError::NonBoolCondition)
    );
}

#[test]
fn application_to_non_lambda_is_an_error() {
    assert_eq!(run("1(2)"), Err(EvalError::ApplicationToNonLambda));
}

#[test]
fn mixed_operand_shapes_are_an_error() {
    assert_eq!(run("1 && true"), Err(EvalError::InvalidBinaryOperation));
    assert_eq!(run("true + false"), Err(EvalError::InvalidBinaryOperation));
    assert_eq!(run("-true"), Err(EvalError::InvalidUnaryOperation));
    assert_eq!(run("!3"), Err(EvalError::InvalidUnaryOperation));
}

#[test]
fn untaken_branch_is_not_evaluated() {
    assert_eq!(run("if (true) { 1 } else { 1 / 0 }"), Ok(Value::Int(1)));
    assert_eq!(run("if (false) { 1 / 0 } else { 2 }"), Ok(Value::Int(2)));
}

#[test]
fn runaway_recursion_hits_the_budget() {
    assert_eq!(
        run("let f = lambda (n) { f(n) }; f(1)"),
        Err(EvalError::RecursionLimit)
    );
}
