//! The tree-walking evaluator.
//!
//! [`Eval::eval`] walks an expression tree and produces a [`Value`] or
//! an [`EvalError`].  Its whole behaviour is pinned down by the spec
//! interpreter [`spec_eval`]: the executable code returns exactly what
//! the spec interpreter returns and leaves the scope arena exactly in
//! the state the spec interpreter describes.
//!
//! Closure application is the one place where recursion is not bounded
//! by the input tree, so the interpreter carries a recursion budget
//! ("fuel"); one unit is spent on each closure body entered.  A program
//! that exceeds the budget fails with [`EvalError::RecursionLimit`].

use vstd::prelude::*;
use crate::environment::{env_lookup, env_wf, lemma_env_lookup_wf, value_wf, Env, FrameView};
use crate::expression::{BinOp, Expr, UnOp};
use crate::internal_value::{rc_clone, Value};

verus! {

/// Everything that can go wrong while evaluating an expression.  Every
/// failure is immediate and fatal to the current evaluation call; there
/// is no recovery.
#[derive(Clone, Copy, Debug, PartialEq, Eq, Structural)]
pub enum EvalError {
    /// An identifier was not found in any enclosing scope.
    UndefinedVariable,
    /// A binary operator met operand shapes it is not defined on.
    InvalidBinaryOperation,
    /// A unary operator met an operand shape it is not defined on.
    InvalidUnaryOperation,
    /// The condition of an `if` did not evaluate to a boolean.
    NonBoolCondition,
    /// The function position of an application did not evaluate to a
    /// closure.
    ApplicationToNonLambda,
    /// Integer division by zero.
    DivisionByZero,
    /// An arithmetic result fell outside the 64-bit signed range.
    ArithmeticOverflow,
    /// The nesting of closure applications exceeded the evaluator's
    /// recursion budget.
    RecursionLimit,
}

/// Recursion budget of the public entry point: how deeply closure
/// applications may nest.
pub const DEFAULT_FUEL: u64 = 1000;

/// What a binary operator yields on two already-evaluated operands.
///
/// Arithmetic needs two integers; comparisons need two integers and
/// yield booleans; the logical operators need two booleans.  Overflow
/// and division by zero are reported as errors rather than faults.
pub open spec fn eval_binop(op: BinOp, v1: Value, v2: Value) -> Result<Value, EvalError> {
    match (v1, v2) {
        (Value::Int(x), Value::Int(y)) => match op {
            BinOp::Plus => if i64::MIN <= x + y <= i64::MAX {
                Ok(Value::Int((x + y) as i64))
            } else {
                Err(EvalError::ArithmeticOverflow)
            },
            BinOp::Minus => if i64::MIN <= x - y <= i64::MAX {
                Ok(Value::Int((x - y) as i64))
            } else {
                Err(EvalError::ArithmeticOverflow)
            },
            BinOp::Mult => if i64::MIN <= x * y <= i64::MAX {
                Ok(Value::Int((x * y) as i64))
            } else {
                Err(EvalError::ArithmeticOverflow)
            },
            BinOp::Div => if y == 0 {
                Err(EvalError::DivisionByZero)
            } else {
                match x.checked_div(y) {
                    Some(q) => Ok(Value::Int(q)),
                    None => Err(EvalError::ArithmeticOverflow),
                }
            },
            BinOp::Eq => Ok(Value::Bool(x == y)),
            BinOp::NotEq => Ok(Value::Bool(x != y)),
            BinOp::Lt => Ok(Value::Bool(x < y)),
            BinOp::Gt => Ok(Value::Bool(x > y)),
            BinOp::Le => Ok(Value::Bool(x <= y)),
            BinOp::Ge => Ok(Value::Bool(x >= y)),
            BinOp::And | BinOp::Or => Err(EvalError::InvalidBinaryOperation),
        },
        (Value::Bool(x), Value::Bool(y)) => match op {
            BinOp::And => Ok(Value::Bool(x && y)),
            BinOp::Or => Ok(Value::Bool(x || y)),
            _ => Err(EvalError::InvalidBinaryOperation),
        },
        _ => Err(EvalError::InvalidBinaryOperation),
    }
}

/// What a unary operator yields on an already-evaluated operand:
/// negation of an integer, logical not of a boolean.
pub open spec fn eval_unop(op: UnOp, v: Value) -> Result<Value, EvalError> {
    match v {
        Value::Int(x) => match op {
            UnOp::Neg => if x == i64::MIN {
                Err(EvalError::ArithmeticOverflow)
            } else {
                Ok(Value::Int((-x) as i64))
            },
            UnOp::Not => Err(EvalError::InvalidUnaryOperation),
        },
        Value::Bool(b) => match op {
            UnOp::Not => Ok(Value::Bool(!b)),
            UnOp::Neg => Err(EvalError::InvalidUnaryOperation),
        },
        Value::Lambda(..) => Err(EvalError::InvalidUnaryOperation),
    }
}

/// Inserts `name -> val` into the bindings of scope `scope`.
pub open spec fn frames_set(
    frames: Seq<FrameView>,
    scope: int,
    name: Seq<char>,
    val: Value,
) -> Seq<FrameView> {
    frames.update(scope, FrameView {
        bindings: frames[scope].bindings.insert(name, val),
        parent: frames[scope].parent,
    })
}

/// The spec interpreter: what evaluating `e` in scope `scope` of the
/// arena `frames` returns, and the arena it leaves behind.
pub open spec fn spec_eval(frames: Seq<FrameView>, scope: int, e: Expr, fuel: nat) -> (Result<
    Value,
    EvalError,
>, Seq<FrameView>)
    decreases fuel, e, 0int,
{
    match e {
        Expr::Int(v) => (Ok(Value::Int(v)), frames),
        Expr::Bool(b) => (Ok(Value::Bool(b)), frames),
        Expr::Variable(name) => (
            match env_lookup(frames, scope, name@) {
                Some(v) => Ok(v),
                None => Err(EvalError::UndefinedVariable),
            },
            frames,
        ),
        Expr::Program(stmts, ret) => {
            let (r, f1) = spec_eval_stmts(frames, scope, stmts@, 0, fuel);
            match r {
                Err(er) => (Err(er), f1),
                Ok(_) => spec_eval(f1, scope, *ret, fuel),
            }
        },
        Expr::BinOp(op, e1, e2) => {
            let (r1, f1) = spec_eval(frames, scope, *e1, fuel);
            match r1 {
                Err(er) => (Err(er), f1),
                Ok(v1) => {
                    let (r2, f2) = spec_eval(f1, scope, *e2, fuel);
                    match r2 {
                        Err(er) => (Err(er), f2),
                        Ok(v2) => (eval_binop(op, v1, v2), f2),
                    }
                },
            }
        },
        Expr::UnaryOp(op, e1) => {
            let (r1, f1) = spec_eval(frames, scope, *e1, fuel);
            match r1 {
                Err(er) => (Err(er), f1),
                Ok(v1) => (eval_unop(op, v1), f1),
            }
        },
        Expr::If(cond, then_e, else_e) => {
            let (rc, f1) = spec_eval(frames, scope, *cond, fuel);
            match rc {
                Err(er) => (Err(er), f1),
                Ok(Value::Bool(true)) => spec_eval(f1, scope, *then_e, fuel),
                Ok(Value::Bool(false)) => spec_eval(f1, scope, *else_e, fuel),
                Ok(_) => (Err(EvalError::NonBoolCondition), f1),
            }
        },
        Expr::Assign(name, _ty, e1) => {
            let (r1, f1) = spec_eval(frames, scope, *e1, fuel);
            match r1 {
                Err(er) => (Err(er), f1),
                Ok(v) => (Ok(v), frames_set(f1, scope, name@, v)),
            }
        },
        Expr::Lambda(var, _ty, body) => (Ok(Value::Lambda(var, body, scope as usize)), frames),
        Expr::App(fun, arg) => {
            let (rf, f1) = spec_eval(frames, scope, *fun, fuel);
            match rf {
                Err(er) => (Err(er), f1),
                Ok(Value::Lambda(param, body, captured)) => {
                    let (ra, f2) = spec_eval(f1, scope, *arg, fuel);
                    match ra {
                        Err(er) => (Err(er), f2),
                        Ok(av) => if fuel == 0 {
                            (Err(EvalError::RecursionLimit), f2)
                        } else {
                            let child = FrameView {
                                bindings: Map::<Seq<char>, Value>::empty().insert(param@, av),
                                parent: Some(captured as int),
                            };
                            spec_eval(
                                f2.push(child),
                                f2.len() as int,
                                *body,
                                (fuel - 1) as nat,
                            )
                        },
                    }
                },
                Ok(_) => (Err(EvalError::ApplicationToNonLambda), f1),
            }
        },
    }
}

/// Evaluates the binding statements `stmts[i..]` in order, threading
/// the arena through; stops at the first error.
pub open spec fn spec_eval_stmts(
    frames: Seq<FrameView>,
    scope: int,
    stmts: Seq<Expr>,
    i: int,
    fuel: nat,
) -> (Result<(), EvalError>, Seq<FrameView>)
    decreases fuel, stmts, stmts.len() - i,
{
    if i < 0 || i >= stmts.len() {
        (Ok(()), frames)
    } else {
        let (r, f1) = spec_eval(frames, scope, stmts[i], fuel);
        match r {
            Err(er) => (Err(er), f1),
            Ok(_) => spec_eval_stmts(f1, scope, stmts, i + 1, fuel),
        }
    }
}

/// The evaluator: owns the scope arena of one run.  Scope 0 is the
/// root scope in which top-level bindings land.
pub struct Eval {
    env: Env,
}

impl View for Eval {
    type V = Seq<FrameView>;

    closed spec fn view(&self) -> Seq<FrameView> {
        self.env@
    }
}

impl Eval {
    /// An evaluator over a fresh arena with an empty root scope.
    pub fn new() -> (e: Eval)
        ensures
            e@ == seq![FrameView { bindings: Map::<Seq<char>, Value>::empty(), parent: None }],
            env_wf(e@),
    {
        Eval { env: Env::new() }
    }

    /// An evaluator over a caller-supplied arena; evaluation starts in
    /// its scope 0.
    pub fn with_env(env: Env) -> (e: Eval)
        ensures
            e@ == env@,
    {
        Eval { env }
    }

    /// Evaluates a whole expression in the root scope, with the default
    /// recursion budget.
    pub fn eval(&mut self, ast: &Expr) -> (r: Result<Value, EvalError>)
        requires
            env_wf(old(self)@),
            old(self)@.len() >= 1,
        ensures
            ({
                let (sr, sf) = spec_eval(old(self)@, 0, *ast, DEFAULT_FUEL as nat);
                r == sr && final(self)@ == sf
            }),
    {
        self.eval_in(ast, 0, DEFAULT_FUEL)
    }

    /// Evaluates `ast` in scope `scope`; mirrors [`spec_eval`] step for
    /// step.
    #[verifier::loop_isolation(false)]
    #[verifier::rlimit(100)]
    fn eval_in(&mut self, ast: &Expr, scope: usize, fuel: u64) -> (r: Result<Value, EvalError>)
        requires
            env_wf(old(self)@),
            scope < old(self)@.len(),
        ensures
            ({
                let (sr, sf) = spec_eval(old(self)@, scope as int, *ast, fuel as nat);
                &&& r == sr
                &&& final(self)@ == sf
                &&& env_wf(final(self)@)
                &&& old(self)@.len() <= final(self)@.len()
                &&& (r matches Ok(v) ==> value_wf(v, final(self)@.len() as int))
            }),
        decreases fuel, *ast,
    {
        match ast {
            Expr::Int(v) => Ok(Value::Int(*v)),
            Expr::Bool(b) => Ok(Value::Bool(*b)),
            Expr::Variable(name) => {
                let r = self.env.get(scope, name.as_str());
                proof {
                    lemma_env_lookup_wf(self@, scope as int, name@);
                }
                r
            },
            Expr::Program(stmts, ret) => {
                let ghost frames0 = self@;
                let mut i: usize = 0;
                loop
                    invariant
                        env_wf(self@),
                        scope < self@.len(),
                        frames0.len() <= self@.len(),
                        i <= stmts.len(),
                        spec_eval_stmts(frames0, scope as int, stmts@, 0, fuel as nat)
                            == spec_eval_stmts(self@, scope as int, stmts@, i as int, fuel as nat),
                    decreases stmts.len() - i,
                {
                    if i >= stmts.len() {
                        break;
                    }
                    proof {
                        assert(decreases_to!(*ast => ast->Program_0));
                        assert(decreases_to!(ast->Program_0 => ast->Program_0@));
                        assert(decreases_to!(ast->Program_0@ => ast->Program_0@[i as int]));
                        assert(stmts@ == ast->Program_0@);
                    }
                    let r = self.eval_in(&stmts[i], scope, fuel);
                    match r {
                        Err(er) => {
                            return Err(er);
                        },
                        Ok(_) => {},
                    }
                    i = i + 1;
                }
                self.eval_in(ret, scope, fuel)
            },
            Expr::BinOp(op, exp1, exp2) => {
                let r1 = self.eval_in(exp1, scope, fuel);
                match r1 {
                    Err(er) => Err(er),
                    Ok(v1) => {
                        let r2 = self.eval_in(exp2, scope, fuel);
                        match r2 {
                            Err(er) => Err(er),
                            Ok(v2) => Self::apply_binop(*op, v1, v2),
                        }
                    },
                }
            },
            Expr::UnaryOp(op, exp1) => {
                let r1 = self.eval_in(exp1, scope, fuel);
                match r1 {
                    Err(er) => Err(er),
                    Ok(v1) => Self::apply_unop(*op, v1),
                }
            },
            Expr::If(cond, then_e, else_e) => {
                let rc = self.eval_in(cond, scope, fuel);
                match rc {
                    Err(er) => Err(er),
                    Ok(Value::Bool(b)) => {
                        if b {
                            self.eval_in(then_e, scope, fuel)
                        } else {
                            self.eval_in(else_e, scope, fuel)
                        }
                    },
                    Ok(_) => Err(EvalError::NonBoolCondition),
                }
            },
            Expr::Assign(name, _ty, exp1) => {
                let r1 = self.eval_in(exp1, scope, fuel);
                match r1 {
                    Err(er) => Err(er),
                    Ok(v) => {
                        let ghost before = self@;
                        self.env.set(scope, name.as_str(), v.clone());
                        proof {
                            lemma_env_wf_after_set(before, scope as int, name@, v);
                        }
                        Ok(v)
                    },
                }
            },
            Expr::Lambda(var, _ty, body) => {
                Ok(Value::Lambda(rc_clone(var), rc_clone(body), scope))
            },
            Expr::App(fun, arg) => {
                let rf = self.eval_in(fun, scope, fuel);
                match rf {
                    Err(er) => Err(er),
                    Ok(Value::Lambda(param, body, captured)) => {
                        let ra = self.eval_in(arg, scope, fuel);
                        match ra {
                            Err(er) => Err(er),
                            Ok(av) => {
                                if fuel == 0 {
                                    Err(EvalError::RecursionLimit)
                                } else {
                                    let ghost f2 = self@;
                                    let h = self.env.with_outer(captured);
                                    self.env.set(h, param.as_str(), av.clone());
                                    proof {
                                        let child = FrameView {
                                            bindings: Map::<Seq<char>, Value>::empty().insert(
                                                param@,
                                                av,
                                            ),
                                            parent: Some(captured as int),
                                        };
                                        assert(self@ =~= f2.push(child));
                                        lemma_env_wf_after_push_bound(f2, captured as int, param@, av);
                                    }
                                    self.eval_in(&body, h, fuel - 1)
                                }
                            },
                        }
                    },
                    Ok(_) => Err(EvalError::ApplicationToNonLambda),
                }
            },
        }
    }

    /// Applies a binary operator to two evaluated operands; returns
    /// exactly [`eval_binop`].
    fn apply_binop(op: BinOp, v1: Value, v2: Value) -> (r: Result<Value, EvalError>)
        ensures
            r == eval_binop(op, v1, v2),
    {
        match (v1, v2) {
            (Value::Int(x), Value::Int(y)) => match op {
                BinOp::Plus => match x.checked_add(y) {
                    Some(s) => Ok(Value::Int(s)),
                    None => Err(EvalError::ArithmeticOverflow),
                },
                BinOp::Minus => match x.checked_sub(y) {
                    Some(s) => Ok(Value::Int(s)),
                    None => Err(EvalError::ArithmeticOverflow),
                },
                BinOp::Mult => match x.checked_mul(y) {
                    Some(s) => Ok(Value::Int(s)),
                    None => Err(EvalError::ArithmeticOverflow),
                },
                BinOp::Div => {
                    if y == 0 {
                        Err(EvalError::DivisionByZero)
                    } else {
                        match x.checked_div(y) {
                            Some(q) => Ok(Value::Int(q)),
                            None => Err(EvalError::ArithmeticOverflow),
                        }
                    }
                },
                BinOp::Eq => Ok(Value::Bool(x == y)),
                BinOp::NotEq => Ok(Value::Bool(x != y)),
                BinOp::Lt => Ok(Value::Bool(x < y)),
                BinOp::Gt => Ok(Value::Bool(x > y)),
                BinOp::Le => Ok(Value::Bool(x <= y)),
                BinOp::Ge => Ok(Value::Bool(x >= y)),
                BinOp::And | BinOp::Or => Err(EvalError::InvalidBinaryOperation),
            },
            (Value::Bool(x), Value::Bool(y)) => match op {
                BinOp::And => Ok(Value::Bool(x && y)),
                BinOp::Or => Ok(Value::Bool(x || y)),
                _ => Err(EvalError::InvalidBinaryOperation),
            },
            _ => Err(EvalError::InvalidBinaryOperation),
        }
    }

    /// Applies a unary operator to an evaluated operand; returns
    /// exactly [`eval_unop`].
    fn apply_unop(op: UnOp, v: Value) -> (r: Result<Value, EvalError>)
        ensures
            r == eval_unop(op, v),
    {
        match v {
            Value::Int(x) => match op {
                UnOp::Neg => {
                    if x == i64::MIN {
                        Err(EvalError::ArithmeticOverflow)
                    } else {
                        Ok(Value::Int(-x))
                    }
                },
                UnOp::Not => Err(EvalError::InvalidUnaryOperation),
            },
            Value::Bool(b) => match op {
                UnOp::Not => Ok(Value::Bool(!b)),
                UnOp::Neg => Err(EvalError::InvalidUnaryOperation),
            },
            Value::Lambda(..) => Err(EvalError::InvalidUnaryOperation),
        }
    }
}

/// Binding a well-formed value in a scope of a well-formed arena keeps
/// the arena well formed.
proof fn lemma_env_wf_after_set(frames: Seq<FrameView>, scope: int, name: Seq<char>, v: Value)
    requires
        env_wf(frames),
        0 <= scope < frames.len(),
        value_wf(v, frames.len() as int),
    ensures
        env_wf(frames_set(frames, scope, name, v)),
{
    let after = frames_set(frames, scope, name, v);
    assert forall|i: int| 0 <= i < after.len() implies #[trigger] crate::environment::frame_wf(
        after,
        i,
    ) by {
        assert(crate::environment::frame_wf(frames, i));
        if i == scope {
            assert forall|k: Seq<char>| after[i].bindings.contains_key(k) implies value_wf(
                #[trigger] after[i].bindings[k],
                after.len() as int,
            ) by {
                if k == name {
                } else {
                    assert(frames[i].bindings.contains_key(k));
                }
            };
        }
    };
}

/// Pushing a child scope holding one well-formed binding onto a
/// well-formed arena keeps the arena well formed.
proof fn lemma_env_wf_after_push_bound(
    frames: Seq<FrameView>,
    parent: int,
    name: Seq<char>,
    v: Value,
)
    requires
        env_wf(frames),
        0 <= parent < frames.len(),
        value_wf(v, frames.len() as int + 1),
    ensures
        env_wf(frames.push(FrameView {
            bindings: Map::<Seq<char>, Value>::empty().insert(name, v),
            parent: Some(parent),
        })),
{
    let child = FrameView {
        bindings: Map::<Seq<char>, Value>::empty().insert(name, v),
        parent: Some(parent),
    };
    let after = frames.push(child);
    assert forall|i: int| 0 <= i < after.len() implies #[trigger] crate::environment::frame_wf(
        after,
        i,
    ) by {
        if i < frames.len() {
            assert(crate::environment::frame_wf(frames, i));
            assert(after[i] == frames[i]);
            assert forall|k: Seq<char>| after[i].bindings.contains_key(k) implies value_wf(
                #[trigger] after[i].bindings[k],
                after.len() as int,
            ) by {
                assert(value_wf(frames[i].bindings[k], frames.len() as int));
            };
        } else {
            assert forall|k: Seq<char>| after[i].bindings.contains_key(k) implies value_wf(
                #[trigger] after[i].bindings[k],
                after.len() as int,
            ) by {
                assert(k == name);
            };
        }
    };
}

} // verus!
