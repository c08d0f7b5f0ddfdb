//! An earlier, operator-only expression tree kept for its textual
//! form: integers, booleans, and the binary and unary operators, with
//! each operator as its own variant.

use vstd::prelude::*;
use crate::render::i64_dec;

verus! {

/// An operator-only expression tree.
#[derive(Debug, PartialEq, Eq)]
pub enum Expr {
    Int(i64),
    Bool(bool),
    BinPlus(Box<Expr>, Box<Expr>),
    BinMinus(Box<Expr>, Box<Expr>),
    BinMult(Box<Expr>, Box<Expr>),
    BinDiv(Box<Expr>, Box<Expr>),
    BinEq(Box<Expr>, Box<Expr>),
    BinNotEq(Box<Expr>, Box<Expr>),
    BinLT(Box<Expr>, Box<Expr>),
    BinGT(Box<Expr>, Box<Expr>),
    BinLE(Box<Expr>, Box<Expr>),
    BinGE(Box<Expr>, Box<Expr>),
    BinAnd(Box<Expr>, Box<Expr>),
    BinOr(Box<Expr>, Box<Expr>),
    UnaryMinus(Box<Expr>),
    UnaryNot(Box<Expr>),
}

/// The textual rendering of the operator-only tree: integers as
/// `Int(N)`, booleans bare, `(left OP right)` for binary forms and
/// `-x` / `!x` for the unary ones.
pub open spec fn spec_render_ast(e: Expr) -> Seq<char>
    decreases e,
{
    match e {
        Expr::Int(v) => "Int("@ + i64_dec(v as int) + ")"@,
        Expr::Bool(b) => if b {
            "true"@
        } else {
            "false"@
        },
        Expr::BinPlus(a, b) => "("@ + spec_render_ast(*a) + " + "@ + spec_render_ast(*b) + ")"@,
        Expr::BinMinus(a, b) => "("@ + spec_render_ast(*a) + " - "@ + spec_render_ast(*b) + ")"@,
        Expr::BinMult(a, b) => "("@ + spec_render_ast(*a) + " * "@ + spec_render_ast(*b) + ")"@,
        Expr::BinDiv(a, b) => "("@ + spec_render_ast(*a) + " / "@ + spec_render_ast(*b) + ")"@,
        Expr::BinEq(a, b) => "("@ + spec_render_ast(*a) + " == "@ + spec_render_ast(*b) + ")"@,
        Expr::BinNotEq(a, b) => "("@ + spec_render_ast(*a) + " != "@ + spec_render_ast(*b)
            + ")"@,
        Expr::BinLT(a, b) => "("@ + spec_render_ast(*a) + " < "@ + spec_render_ast(*b) + ")"@,
        Expr::BinGT(a, b) => "("@ + spec_render_ast(*a) + " > "@ + spec_render_ast(*b) + ")"@,
        Expr::BinLE(a, b) => "("@ + spec_render_ast(*a) + " <= "@ + spec_render_ast(*b) + ")"@,
        Expr::BinGE(a, b) => "("@ + spec_render_ast(*a) + " >= "@ + spec_render_ast(*b) + ")"@,
        Expr::BinAnd(a, b) => "("@ + spec_render_ast(*a) + " && "@ + spec_render_ast(*b) + ")"@,
        Expr::BinOr(a, b) => "("@ + spec_render_ast(*a) + " || "@ + spec_render_ast(*b) + ")"@,
        Expr::UnaryMinus(a) => "-"@ + spec_render_ast(*a),
        Expr::UnaryNot(a) => "!"@ + spec_render_ast(*a),
    }
}

/// Joins two already-rendered operands with the operator text between
/// them, inside parentheses.
fn join_bin(ra: &str, mid: &str, rb: &str) -> (s: String)
    ensures
        s@ == "("@ + ra@ + mid@ + rb@ + ")"@,
{
    let mut s = String::from_str("(");
    s.append(ra);
    s.append(mid);
    s.append(rb);
    s.append(")");
    s
}

impl Expr {
    pub fn integer(num: i64) -> (r: Expr)
        ensures
            r == Expr::Int(num),
    {
        Expr::Int(num)
    }

    pub fn boolean(b: bool) -> (r: Expr)
        ensures
            r == Expr::Bool(b),
    {
        Expr::Bool(b)
    }

    /// Renders the tree; returns exactly [`spec_render_ast`].
    pub fn to_string(&self) -> (s: String)
        ensures
            s@ == spec_render_ast(*self),
        decreases self,
    {
        match self {
            Expr::Int(v) => {
                let mut s = String::from_str("Int(");
                let digits = crate::render::i64_to_dec(*v);
                s.append(digits.as_str());
                s.append(")");
                s
            },
            Expr::Bool(b) => {
                if *b {
                    String::from_str("true")
                } else {
                    String::from_str("false")
                }
            },
            Expr::BinPlus(a, b) => join_bin((**a).to_string().as_str(), " + ", (**b).to_string().as_str()),
            Expr::BinMinus(a, b) => join_bin((**a).to_string().as_str(), " - ", (**b).to_string().as_str()),
            Expr::BinMult(a, b) => join_bin((**a).to_string().as_str(), " * ", (**b).to_string().as_str()),
            Expr::BinDiv(a, b) => join_bin((**a).to_string().as_str(), " / ", (**b).to_string().as_str()),
            Expr::BinEq(a, b) => join_bin((**a).to_string().as_str(), " == ", (**b).to_string().as_str()),
            Expr::BinNotEq(a, b) => join_bin((**a).to_string().as_str(), " != ", (**b).to_string().as_str()),
            Expr::BinLT(a, b) => join_bin((**a).to_string().as_str(), " < ", (**b).to_string().as_str()),
            Expr::BinGT(a, b) => join_bin((**a).to_string().as_str(), " > ", (**b).to_string().as_str()),
            Expr::BinLE(a, b) => join_bin((**a).to_string().as_str(), " <= ", (**b).to_string().as_str()),
            Expr::BinGE(a, b) => join_bin((**a).to_string().as_str(), " >= ", (**b).to_string().as_str()),
            Expr::BinAnd(a, b) => join_bin((**a).to_string().as_str(), " && ", (**b).to_string().as_str()),
            Expr::BinOr(a, b) => join_bin((**a).to_string().as_str(), " || ", (**b).to_string().as_str()),
            Expr::UnaryMinus(a) => {
                let mut s = String::from_str("-");
                let ra = (**a).to_string();
                s.append(ra.as_str());
                s
            },
            Expr::UnaryNot(a) => {
                let mut s = String::from_str("!");
                let ra = (**a).to_string();
                s.append(ra.as_str());
                s
            },
        }
    }
}

} // verus!
