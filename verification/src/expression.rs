//! Abstract syntax of the expression language.

use vstd::prelude::*;
use std::rc::Rc;
use crate::render::i64_dec;

verus! {

/// Binary operator symbols, a closed set fixed at parse time.
#[derive(Clone, Copy, Debug, PartialEq, Eq, Structural)]
pub enum BinOp {
    Plus,
    Minus,
    Mult,
    Div,
    Eq,
    NotEq,
    Lt,
    Gt,
    Le,
    Ge,
    And,
    Or,
}

/// Unary operator symbols.
#[derive(Clone, Copy, Debug, PartialEq, Eq, Structural)]
pub enum UnOp {
    Neg,
    Not,
}

/// A type annotation as written in the source; `Unknown` stands for an
/// omitted annotation.
#[derive(Debug, PartialEq, Eq)]
pub enum ExpectedType {
    Int,
    Bool,
    Func(Box<ExpectedType>, Box<ExpectedType>),
    Unknown,
}

impl ExpectedType {
    pub fn func(t1: ExpectedType, t2: ExpectedType) -> (r: ExpectedType)
        ensures
            r == ExpectedType::Func(Box::new(t1), Box::new(t2)),
    {
        ExpectedType::Func(Box::new(t1), Box::new(t2))
    }
}

/// An expression tree.  A whole program is the `Program` variant: an
/// ordered list of bindings followed by the trailing result expression.
///
/// Lambda stores its pieces behind `Rc` so that evaluation can capture
/// the body in a closure value without copying the tree.
#[derive(Debug, PartialEq, Eq)]
pub enum Expr {
    Int(i64),
    Bool(bool),
    Variable(String),
    Program(Vec<Expr>, Box<Expr>),
    BinOp(BinOp, Box<Expr>, Box<Expr>),
    UnaryOp(UnOp, Box<Expr>),
    If(Box<Expr>, Box<Expr>, Box<Expr>),
    Assign(String, ExpectedType, Box<Expr>),
    Lambda(Rc<String>, ExpectedType, Rc<Expr>),
    App(Box<Expr>, Box<Expr>),
}

impl Expr {
    pub fn integer(num: i64) -> (r: Expr)
        ensures
            r == Expr::Int(num),
    {
        Expr::Int(num)
    }

    pub fn boolean(b: bool) -> (r: Expr)
        ensures
            r == Expr::Bool(b),
    {
        Expr::Bool(b)
    }

    pub fn ident(name: String) -> (r: Expr)
        ensures
            r == Expr::Variable(name),
    {
        Expr::Variable(name)
    }

    pub fn assign(name: String, ty: ExpectedType, expr: Expr) -> (r: Expr)
        ensures
            r == Expr::Assign(name, ty, Box::new(expr)),
    {
        Expr::Assign(name, ty, Box::new(expr))
    }

    pub fn binop(op: BinOp, exp1: Expr, exp2: Expr) -> (r: Expr)
        ensures
            r == Expr::BinOp(op, Box::new(exp1), Box::new(exp2)),
    {
        Expr::BinOp(op, Box::new(exp1), Box::new(exp2))
    }

    pub fn unaryop(op: UnOp, expr: Expr) -> (r: Expr)
        ensures
            r == Expr::UnaryOp(op, Box::new(expr)),
    {
        Expr::UnaryOp(op, Box::new(expr))
    }

    pub fn app(fun: Expr, arg: Expr) -> (r: Expr)
        ensures
            r == Expr::App(Box::new(fun), Box::new(arg)),
    {
        Expr::App(Box::new(fun), Box::new(arg))
    }

    pub fn if_expr(cond: Expr, expr: Expr, elseexp: Expr) -> (r: Expr)
        ensures
            r == Expr::If(Box::new(cond), Box::new(expr), Box::new(elseexp)),
    {
        Expr::If(Box::new(cond), Box::new(expr), Box::new(elseexp))
    }

    pub fn lambda(name: String, argty: ExpectedType, expr: Expr) -> (r: Expr)
        ensures
            r == Expr::Lambda(Rc::new(name), argty, Rc::new(expr)),
    {
        Expr::Lambda(Rc::new(name), argty, Rc::new(expr))
    }

    pub fn program(prog: Vec<Expr>, ret: Expr) -> (r: Expr)
        ensures
            r == Expr::Program(prog, Box::new(ret)),
    {
        Expr::Program(prog, Box::new(ret))
    }
}

/// The source symbol of a binary operator.
pub open spec fn binop_symbol(op: BinOp) -> Seq<char> {
    match op {
        BinOp::Plus => "+"@,
        BinOp::Minus => "-"@,
        BinOp::Mult => "*"@,
        BinOp::Div => "/"@,
        BinOp::Eq => "=="@,
        BinOp::NotEq => "!="@,
        BinOp::Lt => "<"@,
        BinOp::Gt => ">"@,
        BinOp::Le => "<="@,
        BinOp::Ge => ">="@,
        BinOp::And => "&&"@,
        BinOp::Or => "||"@,
    }
}

/// The source symbol of a unary operator.
pub open spec fn unop_symbol(op: UnOp) -> Seq<char> {
    match op {
        UnOp::Neg => "-"@,
        UnOp::Not => "!"@,
    }
}

impl BinOp {
    /// The operator's source symbol.
    pub fn symbol(self) -> (s: &'static str)
        ensures
            s@ == binop_symbol(self),
    {
        match self {
            BinOp::Plus => "+",
            BinOp::Minus => "-",
            BinOp::Mult => "*",
            BinOp::Div => "/",
            BinOp::Eq => "==",
            BinOp::NotEq => "!=",
            BinOp::Lt => "<",
            BinOp::Gt => ">",
            BinOp::Le => "<=",
            BinOp::Ge => ">=",
            BinOp::And => "&&",
            BinOp::Or => "||",
        }
    }
}

impl UnOp {
    /// The operator's source symbol.
    pub fn symbol(self) -> (s: &'static str)
        ensures
            s@ == unop_symbol(self),
    {
        match self {
            UnOp::Neg => "-",
            UnOp::Not => "!",
        }
    }
}

/// The textual rendering of a type annotation: `int`, `bool`,
/// `(domain -> codomain)`, or `?` for an omitted annotation.
pub open spec fn spec_render_expected(t: ExpectedType) -> Seq<char>
    decreases t,
{
    match t {
        ExpectedType::Int => "int"@,
        ExpectedType::Bool => "bool"@,
        ExpectedType::Func(a, b) => "("@ + spec_render_expected(*a) + " -> "@
            + spec_render_expected(*b) + ")"@,
        ExpectedType::Unknown => "?"@,
    }
}

impl ExpectedType {
    /// Renders the annotation; returns exactly
    /// [`spec_render_expected`].
    pub fn to_string(&self) -> (s: String)
        ensures
            s@ == spec_render_expected(*self),
        decreases self,
    {
        match self {
            ExpectedType::Int => String::from_str("int"),
            ExpectedType::Bool => String::from_str("bool"),
            ExpectedType::Func(a, b) => {
                let mut s = String::from_str("(");
                let ra = (**a).to_string();
                s.append(ra.as_str());
                s.append(" -> ");
                let rb = (**b).to_string();
                s.append(rb.as_str());
                s.append(")");
                s
            },
            ExpectedType::Unknown => String::from_str("?"),
        }
    }
}

/// The textual rendering of an expression, in the surface syntax the
/// parser reads: binary forms as `(left OP right)`, unary forms as
/// `-x` and `!x`, and the surface shapes of `if`, `let`, `lambda` and
/// application.
pub open spec fn spec_render(e: Expr) -> Seq<char>
    decreases e, 0int,
{
    match e {
        Expr::Int(v) => i64_dec(v as int),
        Expr::Bool(b) => if b {
            "true"@
        } else {
            "false"@
        },
        Expr::Variable(name) => name@,
        Expr::Program(stmts, ret) => if stmts@.len() == 0 {
            " "@ + spec_render(*ret)
        } else {
            spec_render_stmts(stmts@, stmts@.len() as int) + spec_render(*ret)
        },
        Expr::BinOp(op, a, b) => "("@ + spec_render(*a) + " "@ + binop_symbol(op) + " "@
            + spec_render(*b) + ")"@,
        Expr::UnaryOp(op, a) => unop_symbol(op) + spec_render(*a),
        Expr::If(c, t, e2) => "if ("@ + spec_render(*c) + ") { "@ + spec_render(*t)
            + " } else { "@ + spec_render(*e2) + " }"@,
        Expr::Assign(name, ty, e1) => if ty is Unknown {
            "let "@ + name@ + " = "@ + spec_render(*e1) + ";"@
        } else {
            "let "@ + name@ + ": "@ + spec_render_expected(ty) + " = "@ + spec_render(*e1)
                + ";"@
        },
        Expr::Lambda(var, ty, body) => if ty is Unknown {
            "lambda ("@ + var@ + ") { "@ + spec_render(*body) + " }"@
        } else {
            "lambda ("@ + var@ + ":"@ + spec_render_expected(ty) + ") { "@
                + spec_render(*body) + " }"@
        },
        Expr::App(f, a) => spec_render(*f) + "("@ + spec_render(*a) + ")"@,
    }
}

/// The renderings of `stmts[0..i]`, each followed by one space.
pub open spec fn spec_render_stmts(stmts: Seq<Expr>, i: int) -> Seq<char>
    decreases stmts, i,
{
    if i <= 0 || i > stmts.len() {
        Seq::empty()
    } else {
        spec_render_stmts(stmts, i - 1) + spec_render(stmts[i - 1]) + " "@
    }
}

impl Expr {
    /// Renders the expression; returns exactly [`spec_render`].
    #[verifier::loop_isolation(false)]
    pub fn to_string(&self) -> (s: String)
        ensures
            s@ == spec_render(*self),
        decreases *self,
    {
        match self {
            Expr::Int(v) => crate::render::i64_to_dec(*v),
            Expr::Bool(b) => {
                if *b {
                    String::from_str("true")
                } else {
                    String::from_str("false")
                }
            },
            Expr::Variable(name) => String::from_str(name.as_str()),
            Expr::Program(stmts, ret) => {
                let mut s = String::new();
                if stmts.len() == 0 {
                    s.append(" ");
                    proof {
                        assert(s@ =~= " "@);
                    }
                } else {
                    let mut i: usize = 0;
                    proof {
                        assert(s@ =~= spec_render_stmts(stmts@, 0));
                    }
                    loop
                        invariant
                            i <= stmts.len(),
                            s@ == spec_render_stmts(stmts@, i as int),
                        decreases stmts.len() - i,
                    {
                        if i >= stmts.len() {
                            break;
                        }
                        proof {
                            assert(decreases_to!(*self => self->Program_0));
                            assert(decreases_to!(self->Program_0 => self->Program_0@));
                            assert(decreases_to!(
                                self->Program_0@ => self->Program_0@[i as int]
                            ));
                            assert(stmts@ == self->Program_0@);
                        }
                        let sub = stmts[i].to_string();
                        s.append(sub.as_str());
                        s.append(" ");
                        i = i + 1;
                    }
                }
                let subr = (**ret).to_string();
                s.append(subr.as_str());
                s
            },
            Expr::BinOp(op, a, b) => {
                let mut s = String::from_str("(");
                let ra = (**a).to_string();
                s.append(ra.as_str());
                s.append(" ");
                s.append(op.symbol());
                s.append(" ");
                let rb = (**b).to_string();
                s.append(rb.as_str());
                s.append(")");
                s
            },
            Expr::UnaryOp(op, a) => {
                let mut s = String::from_str(op.symbol());
                let ra = (**a).to_string();
                s.append(ra.as_str());
                s
            },
            Expr::If(c, t, e2) => {
                let mut s = String::from_str("if (");
                let rc = (**c).to_string();
                s.append(rc.as_str());
                s.append(") { ");
                let rt = (**t).to_string();
                s.append(rt.as_str());
                s.append(" } else { ");
                let re = (**e2).to_string();
                s.append(re.as_str());
                s.append(" }");
                s
            },
            Expr::Assign(name, ty, e1) => {
                let mut s = String::from_str("let ");
                s.append(name.as_str());
                match ty {
                    ExpectedType::Unknown => {},
                    _ => {
                        s.append(": ");
                        let rt = ty.to_string();
                        s.append(rt.as_str());
                    },
                }
                s.append(" = ");
                let re = (**e1).to_string();
                s.append(re.as_str());
                s.append(";");
                s
            },
            Expr::Lambda(var, ty, body) => {
                let mut s = String::from_str("lambda (");
                s.append(var.as_str());
                match ty {
                    ExpectedType::Unknown => {},
                    _ => {
                        s.append(":");
                        let rt = ty.to_string();
                        s.append(rt.as_str());
                    },
                }
                s.append(") { ");
                let rb = (**body).to_string();
                s.append(rb.as_str());
                s.append(" }");
                s
            },
            Expr::App(f, a) => {
                let mut s = (**f).to_string();
                s.append("(");
                let ra = (**a).to_string();
                s.append(ra.as_str());
                s.append(")");
                s
            },
        }
    }
}

} // verus!
