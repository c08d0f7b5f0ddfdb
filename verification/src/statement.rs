//! A statement form layered over expressions: a chain of bindings
//! ending in one expression.

use vstd::prelude::*;
use crate::expression::{spec_render, Expr};

verus! {

/// A binding followed by the rest of the statement, or a bare
/// expression.
#[derive(Debug, PartialEq, Eq)]
pub enum Statement {
    AssignAndConseq(String, Expr, Box<Statement>),
    Expression(Expr),
}

/// The textual rendering of a statement:
/// `let NAME = EXPR; REST` for a binding, the expression's own
/// rendering otherwise.
pub open spec fn spec_render_statement(st: Statement) -> Seq<char>
    decreases st,
{
    match st {
        Statement::AssignAndConseq(ident, expr, conseq) => "let "@ + ident@ + " = "@
            + spec_render(expr) + "; "@ + spec_render_statement(*conseq),
        Statement::Expression(expr) => spec_render(expr),
    }
}

impl Statement {
    /// Renders the statement; returns exactly
    /// [`spec_render_statement`].
    pub fn to_string(&self) -> (s: String)
        ensures
            s@ == spec_render_statement(*self),
        decreases self,
    {
        match self {
            Statement::AssignAndConseq(ident, expr, conseq) => {
                let mut s = String::from_str("let ");
                s.append(ident.as_str());
                s.append(" = ");
                let re = expr.to_string();
                s.append(re.as_str());
                s.append("; ");
                let rc = (**conseq).to_string();
                s.append(rc.as_str());
                s
            },
            Statement::Expression(expr) => expr.to_string(),
        }
    }
}

} // verus!
