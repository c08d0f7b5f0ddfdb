//! Semantic core of a small statically-typed expression language.
//!
//! The language has integers, booleans, conditionals, let-bindings and
//! single-argument lambdas with application.  The crate provides the
//! abstract syntax tree, a Hindley-Milner-style type inference engine
//! built on unification with an occurs check, and a tree-walking
//! evaluator whose closures capture their defining lexical scope.

pub mod ast;
pub mod environment;
pub mod eval;
pub mod expression;
pub mod internal_value;
pub mod parse;
pub mod render;
pub mod statement;
pub mod tokenize;
pub mod types;
