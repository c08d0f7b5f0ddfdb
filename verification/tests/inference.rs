//! Type inference behaviour: inferred types, unification, and errors.

use minilang::parse::Parser;
use minilang::types::{Type, TypeError, TypeInfer};

fn infer(src: &str) -> Result<Type, TypeError> {
    let ast = Parser::new(src).prog().unwrap();
    TypeInfer::new().infer_type(&ast)
}

#[test]
fn annotated_lambda_infers_its_function_type() {
    assert_eq!(
        infer("lambda (x: int) { x + 1 }"),
        Ok(Type::func(Type::Int, Type::Int))
    );
}

#[test]
fn unannotated_lambda_parameter_stays_a_variable() {
    // The parameter is minted as the first unification variable; the
    // body forces it to resolve to int, but the wrapper keeps the
    // variable itself.
    assert_eq!(
        infer("lambda (x) { x + 1 }"),
        Ok(Type::func(Type::TypeVar(0), Type::Int))
    );
}

#[test]
fn literals_and_identifiers() {
    assert_eq!(infer("1"), Ok(Type::Int));
    assert_eq!(infer("true"), Ok(Type::Bool));
    assert_eq!(infer("let a = 2; a"), Ok(Type::Int));
    assert_eq!(infer("x"), Err(TypeError::UndefinedVariable));
}

#[test]
fn comparisons_infer_int_by_design() {
    // Arithmetic and comparison operators both yield int in this type
    // system, an intentional simplification of the subject language.
    assert_eq!(infer("1 + 2"), Ok(Type::Int));
    assert_eq!(infer("1 < 2"), Ok(Type::Int));
    assert_eq!(infer("true && false"), Ok(Type::Bool));
}

#[test]
fn operand_mismatch_reports_both_types() {
    assert_eq!(infer("1 + true"), Err(TypeError::Mismatch(Type::Int, Type::Bool)));
    assert_eq!(infer("true + 1"), Err(TypeError::Mismatch(Type::Bool, Type::Int)));
}

#[test]
fn unification_outcome_is_symmetric_for_concrete_types() {
    // Mirrored operand orders succeed or fail together.
    assert!(infer("1 + true").is_err());
    assert!(infer("true + 1").is_err());
    assert!(infer("1 + 2").is_ok());
    assert!(infer("2 + 1").is_ok());
}

#[test]
fn annotated_binding_must_match_its_expression() {
    assert_eq!(infer("let x: int = 1; x"), Ok(Type::Int));
    assert_eq!(
        infer("let x: bool = 1; x"),
        Err(TypeError::Mismatch(Type::Bool, Type::Int))
    );
}

#[test]
fn condition_must_be_bool_and_branches_must_agree() {
    assert_eq!(infer("if (true) { 1 } else { 2 }"), Ok(Type::Int));
    assert_eq!(
        infer("if (1) { 2 } else { 3 }"),
        Err(TypeError::Mismatch(Type::Int, Type::Bool))
    );
    assert_eq!(
        infer("if (true) { 1 } else { false }"),
        Err(TypeError::Mismatch(Type::Int, Type::Bool))
    );
}

#[test]
fn application_needs_a_function_type() {
    assert_eq!(
        infer("let f: int -> int = lambda (x: int) { x }; f(1)"),
        Ok(Type::Int)
    );
    assert_eq!(infer("1(2)"), Err(TypeError::NotAFunction(Type::Int)));
}

#[test]
fn application_argument_must_match_the_domain() {
    assert_eq!(
        infer("let f = lambda (x: int) { x }; f(true)"),
        Err(TypeError::Mismatch(Type::Int, Type::Bool))
    );
}

#[test]
fn occurs_check_rejects_infinite_types() {
    // Unifying the parameter's variable with a function type that
    // contains that same variable must fail as an infinite type.
    assert_eq!(
        infer("lambda (f) { f == lambda (y: int) { f } }"),
        Err(TypeError::InfiniteType)
    );
}

#[test]
fn unary_operators_force_their_operand_types() {
    assert_eq!(infer("-1"), Ok(Type::Int));
    assert_eq!(infer("!true"), Ok(Type::Bool));
    assert_eq!(infer("-true"), Err(TypeError::Mismatch(Type::Bool, Type::Int)));
    assert_eq!(infer("!1"), Err(TypeError::Mismatch(Type::Int, Type::Bool)));
}
