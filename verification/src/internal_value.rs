//! Runtime values produced by the evaluator.

use vstd::prelude::*;
use std::rc::Rc;
use crate::expression::Expr;
use crate::render::i64_dec;

verus! {

/// Relies on `Rc::clone`: it returns a new handle to the same
/// allocation, so the returned value equals the original.
#[verifier::external_body]
pub(crate) fn rc_clone<T>(b: &Rc<T>) -> (res: Rc<T>)
    ensures
        res == *b,
{
    Rc::clone(b)
}

/// A runtime value: an integer, a boolean, or a closure.  A closure
/// keeps its parameter name, its unevaluated body, and the handle of
/// the scope it captured inside the evaluator's scope arena.
#[derive(Debug, PartialEq, Eq)]
pub enum Value {
    Int(i64),
    Bool(bool),
    Lambda(Rc<String>, Rc<Expr>, usize),
}

impl Clone for Value {
    fn clone(&self) -> (res: Value)
        ensures
            res == *self,
    {
        match self {
            Value::Int(v) => Value::Int(*v),
            Value::Bool(b) => Value::Bool(*b),
            Value::Lambda(name, body, scope) => Value::Lambda(
                rc_clone(name),
                rc_clone(body),
                *scope,
            ),
        }
    }
}

/// The textual rendering of a value: the integer or boolean itself, or
/// `lambda (PARAM)` for a closure.
pub open spec fn spec_render_value(v: Value) -> Seq<char> {
    match v {
        Value::Int(i) => i64_dec(i as int),
        Value::Bool(b) => if b {
            "true"@
        } else {
            "false"@
        },
        Value::Lambda(name, _, _) => "lambda ("@ + name@ + ")"@,
    }
}

impl Value {
    /// Renders the value; returns exactly [`spec_render_value`].
    pub fn to_string(&self) -> (s: String)
        ensures
            s@ == spec_render_value(*self),
    {
        match self {
            Value::Int(i) => crate::render::i64_to_dec(*i),
            Value::Bool(b) => {
                if *b {
                    String::from_str("true")
                } else {
                    String::from_str("false")
                }
            },
            Value::Lambda(name, _, _) => {
                let mut s = String::from_str("lambda (");
                s.append(name.as_str());
                s.append(")");
                s
            },
        }
    }
}

} // verus!
