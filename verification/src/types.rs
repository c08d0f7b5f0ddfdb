//! Types, type scope chains, and the Hindley-Milner-style inference
//! engine built on unification with an occurs check.
//!
//! A unification variable ([`Type::TypeVar`]) carries an index into the
//! resolution table owned by the inference run ([`TypeInfer`]): entry
//! `i` of the table is the resolution cell of variable `i`, empty until
//! unification binds it, and never cleared afterwards.  Because every
//! holder of the variable shares the table, a binding is visible to all
//! of them at once.
//!
//! The chain-following spec functions ([`resolve`], [`spec_occur`],
//! [`spec_unify`]) carry a step budget ("fuel") so that they are total
//! even on tables that no well-formed run can produce; the budget is
//! far beyond what any real chain needs, and running out surfaces as
//! [`TypeError::RecursionLimit`].

use vstd::prelude::*;
use crate::expression::{BinOp, ExpectedType, Expr, UnOp};

verus! {

/// A type of the object language: a concrete type, a function type, or
/// a unification variable addressed by its table index.
#[derive(Debug, PartialEq, Eq)]
pub enum Type {
    Int,
    Bool,
    Func(Box<Type>, Box<Type>),
    TypeVar(usize),
}

impl Clone for Type {
    fn clone(&self) -> (res: Type)
        ensures
            res == *self,
        decreases self,
    {
        match self {
            Type::Int => Type::Int,
            Type::Bool => Type::Bool,
            Type::Func(a, b) => Type::Func(Box::new((**a).clone()), Box::new((**b).clone())),
            Type::TypeVar(i) => Type::TypeVar(*i),
        }
    }
}

impl Type {
    pub fn func(t1: Type, t2: Type) -> (r: Type)
        ensures
            r == Type::Func(Box::new(t1), Box::new(t2)),
    {
        Type::Func(Box::new(t1), Box::new(t2))
    }
}

/// Everything that can go wrong during type inference.
#[derive(Debug, PartialEq, Eq)]
pub enum TypeError {
    /// An identifier was not found in any enclosing scope.
    UndefinedVariable,
    /// Two concrete types failed to unify; carries both for
    /// diagnostics.
    Mismatch(Type, Type),
    /// The occurs check rejected a binding that would create an
    /// infinite type.
    InfiniteType,
    /// The function position of an application does not have a
    /// function type; carries the offending type.
    NotAFunction(Type),
    /// A resolution or unification chain exceeded the step budget.
    RecursionLimit,
}

/// Every type variable occurring in `t` has an index below `n`.
pub open spec fn ty_wf(t: Type, n: int) -> bool
    decreases t,
{
    match t {
        Type::Int => true,
        Type::Bool => true,
        Type::Func(a, b) => ty_wf(*a, n) && ty_wf(*b, n),
        Type::TypeVar(i) => i < n,
    }
}

/// Bounds on type variables are monotone in the table length.
pub proof fn lemma_ty_wf_mono(t: Type, n: int, m: int)
    requires
        ty_wf(t, n),
        n <= m,
    ensures
        ty_wf(t, m),
    decreases t,
{
    match t {
        Type::Func(a, b) => {
            lemma_ty_wf_mono(*a, n, m);
            lemma_ty_wf_mono(*b, n, m);
        },
        _ => {},
    }
}

/// One type scope: local bindings in insertion order (a later entry for
/// the same name shadows an earlier one) plus the parent handle.
pub struct TyFrame {
    entries: Vec<(String, Type)>,
    parent: Option<usize>,
}

/// Mathematical model of one type scope.
pub struct TyFrameView {
    pub bindings: Map<Seq<char>, Type>,
    pub parent: Option<int>,
}

/// Folds an association list into a map; a later entry wins.
pub open spec fn ty_assoc_map(entries: Seq<(String, Type)>) -> Map<Seq<char>, Type>
    decreases entries.len(),
{
    if entries.len() == 0 {
        Map::empty()
    } else {
        ty_assoc_map(entries.drop_last()).insert(entries.last().0@, entries.last().1)
    }
}

impl View for TyFrame {
    type V = TyFrameView;

    closed spec fn view(&self) -> TyFrameView {
        TyFrameView {
            bindings: ty_assoc_map(self.entries@),
            parent: match self.parent {
                Some(p) => Some(p as int),
                None => None,
            },
        }
    }
}

/// Every scope's parent comes strictly before it in the arena.
pub open spec fn tyenv_wf(frames: Seq<TyFrameView>) -> bool {
    forall|i: int|
        0 <= i < frames.len() ==> (#[trigger] frames[i].parent matches Some(p) ==> 0 <= p < i)
}

/// Every type bound in any scope has its variables below `n`.
pub open spec fn tyenv_types_wf(frames: Seq<TyFrameView>, n: int) -> bool {
    forall|i: int, k: Seq<char>|
        0 <= i < frames.len() && frames[i].bindings.contains_key(k) ==> ty_wf(
            #[trigger] frames[i].bindings[k],
            n,
        )
}

/// Name lookup: search the local bindings of `scope`, then the parent
/// chain, outward until found or exhausted.
pub open spec fn tyenv_lookup(frames: Seq<TyFrameView>, scope: int, name: Seq<char>) -> Option<
    Type,
>
    decreases scope,
{
    if !(0 <= scope < frames.len()) {
        None
    } else if frames[scope].bindings.contains_key(name) {
        Some(frames[scope].bindings[name])
    } else {
        match frames[scope].parent {
            Some(p) => if 0 <= p < scope {
                tyenv_lookup(frames, p, name)
            } else {
                None
            },
            None => None,
        }
    }
}

/// A type found by lookup has its variables below `n` when the whole
/// arena does.
pub proof fn lemma_tyenv_lookup_wf(frames: Seq<TyFrameView>, scope: int, name: Seq<char>, n: int)
    requires
        tyenv_types_wf(frames, n),
    ensures
        tyenv_lookup(frames, scope, name) matches Some(t) ==> ty_wf(t, n),
    decreases scope,
{
    if 0 <= scope < frames.len() {
        if !frames[scope].bindings.contains_key(name) {
            match frames[scope].parent {
                Some(p) => {
                    if 0 <= p < scope {
                        lemma_tyenv_lookup_wf(frames, p, name, n);
                    }
                },
                None => {},
            }
        }
    }
}

/// The arena of type scopes of one inference run.  Scope 0 is the root
/// scope.
pub struct TypeEnv {
    frames: Vec<TyFrame>,
}

impl View for TypeEnv {
    type V = Seq<TyFrameView>;

    closed spec fn view(&self) -> Seq<TyFrameView> {
        self.frames@.map_values(|f: TyFrame| f@)
    }
}

impl TypeEnv {
    /// A fresh arena holding just the empty root scope.
    pub fn new() -> (e: TypeEnv)
        ensures
            e@ == seq![TyFrameView { bindings: Map::<Seq<char>, Type>::empty(), parent: None }],
            tyenv_wf(e@),
    {
        let mut frames: Vec<TyFrame> = Vec::new();
        frames.push(TyFrame { entries: Vec::new(), parent: None });
        let e = TypeEnv { frames };
        proof {
            assert(e@ =~= seq![
                TyFrameView { bindings: Map::<Seq<char>, Type>::empty(), parent: None },
            ]);
        }
        e
    }

    /// Number of scopes in the arena.
    pub fn len(&self) -> (n: usize)
        ensures
            n == self@.len(),
    {
        self.frames.len()
    }

    /// Adds a fresh empty scope whose parent is `outer` and returns its
    /// handle.
    pub fn with_outer(&mut self, outer: usize) -> (h: usize)
        requires
            outer < old(self)@.len(),
        ensures
            final(self)@ == old(self)@.push(
                TyFrameView {
                    bindings: Map::<Seq<char>, Type>::empty(),
                    parent: Some(outer as int),
                },
            ),
            h == old(self)@.len(),
    {
        let h = self.frames.len();
        self.frames.push(TyFrame { entries: Vec::new(), parent: Some(outer) });
        proof {
            let pushed = TyFrameView {
                bindings: Map::<Seq<char>, Type>::empty(),
                parent: Some(outer as int),
            };
            assert(self@ =~= old(self)@.push(pushed));
        }
        h
    }

    /// Binds `name` to `val` in scope `scope`, shadowing any earlier
    /// binding of the same name in that scope.
    pub fn set(&mut self, scope: usize, name: &str, val: Type)
        requires
            scope < old(self)@.len(),
        ensures
            final(self)@ == old(self)@.update(scope as int, TyFrameView {
                bindings: old(self)@[scope as int].bindings.insert(name@, val),
                parent: old(self)@[scope as int].parent,
            }),
    {
        let owned: String = name.to_owned();
        let ghost valg = val;
        let frame: &mut TyFrame = &mut self.frames[scope];
        frame.entries.push((owned, val));
        proof {
            let s = scope as int;
            assert(self.frames@[s].entries@.drop_last() =~= old(self).frames@[s].entries@);
            assert(self@ =~= old(self)@.update(s, TyFrameView {
                bindings: old(self)@[s].bindings.insert(name@, valg),
                parent: old(self)@[s].parent,
            }));
        }
    }

    /// Looks `name` up in the local bindings of scope `i` alone.
    fn frame_get(&self, i: usize, name: &String) -> (r: Option<Type>)
        requires
            i < self@.len(),
        ensures
            r == if self@[i as int].bindings.contains_key(name@) {
                Some(self@[i as int].bindings[name@])
            } else {
                Option::<Type>::None
            },
    {
        let frame = &self.frames[i];
        let mut j = frame.entries.len();
        proof {
            assert(frame.entries@.take(j as int) =~= frame.entries@);
        }
        loop
            invariant
                i < self@.len(),
                frame == &self.frames[i as int],
                j <= frame.entries.len(),
                ty_assoc_map(frame.entries@).contains_key(name@) == ty_assoc_map(
                    frame.entries@.take(j as int),
                ).contains_key(name@),
                ty_assoc_map(frame.entries@).contains_key(name@) ==> ty_assoc_map(
                    frame.entries@,
                )[name@] == ty_assoc_map(frame.entries@.take(j as int))[name@],
            decreases j,
        {
            if j == 0 {
                proof {
                    assert(frame.entries@.take(0) =~= Seq::<(String, Type)>::empty());
                }
                return None;
            }
            j = j - 1;
            proof {
                assert(frame.entries@.take(j as int + 1).drop_last() =~= frame.entries@.take(
                    j as int,
                ));
                assert(frame.entries@.take(j as int + 1).last() == frame.entries@[j as int]);
            }
            if frame.entries[j].0.eq(name) {
                return Some(frame.entries[j].1.clone());
            }
        }
    }

    /// Looks `name` up along the scope chain starting at `scope`.
    pub fn get(&self, scope: usize, name: &str) -> (r: Result<Type, TypeError>)
        requires
            tyenv_wf(self@),
            scope < self@.len(),
        ensures
            r == match tyenv_lookup(self@, scope as int, name@) {
                Some(t) => Result::<Type, TypeError>::Ok(t),
                None => Result::<Type, TypeError>::Err(TypeError::UndefinedVariable),
            },
    {
        let owned: String = name.to_owned();
        let mut cur = scope;
        loop
            invariant
                tyenv_wf(self@),
                cur < self@.len(),
                owned@ == name@,
                tyenv_lookup(self@, scope as int, name@) == tyenv_lookup(
                    self@,
                    cur as int,
                    name@,
                ),
            decreases cur,
        {
            match self.frame_get(cur, &owned) {
                Some(t) => {
                    return Ok(t);
                },
                None => {
                    match self.frames[cur].parent {
                        Some(p) => {
                            cur = p;
                        },
                        None => {
                            return Err(TypeError::UndefinedVariable);
                        },
                    }
                },
            }
        }
    }
}

/// Step budget handed to every resolution, occurs-check and
/// unification chain; far beyond what any real inference run follows.
pub const UNIFY_FUEL: u64 = 4294967296;

/// Follows the resolution chain of `t` to a fixed point: a concrete
/// type or an unbound variable.  `None` means the step budget ran out.
pub open spec fn resolve(table: Seq<Option<Type>>, t: Type, fuel: nat) -> Option<Type>
    decreases fuel,
{
    match t {
        Type::TypeVar(i) => if i < table.len() {
            match table[i as int] {
                Some(u) => if fuel == 0 {
                    None
                } else {
                    resolve(table, u, (fuel - 1) as nat)
                },
                None => Some(t),
            }
        } else {
            Some(t)
        },
        _ => Some(t),
    }
}

/// A fully resolved type still has all its variables inside the table.
pub proof fn lemma_resolve_wf(table: Seq<Option<Type>>, t: Type, fuel: nat)
    requires
        table_wf(table),
        ty_wf(t, table.len() as int),
    ensures
        resolve(table, t, fuel) matches Some(r) ==> ty_wf(r, table.len() as int),
    decreases fuel,
{
    match t {
        Type::TypeVar(i) => {
            if i < table.len() {
                match table[i as int] {
                    Some(u) => {
                        if fuel > 0 {
                            lemma_resolve_wf(table, u, (fuel - 1) as nat);
                        }
                    },
                    None => {},
                }
            }
        },
        _ => {},
    }
}

/// Whether variable `id` occurs in `t`, following resolution chains.
/// `None` means the step budget ran out.
pub open spec fn spec_occur(table: Seq<Option<Type>>, id: usize, t: Type, fuel: nat) -> Option<
    bool,
>
    decreases fuel, t,
{
    match t {
        Type::Int => Some(false),
        Type::Bool => Some(false),
        Type::Func(a, b) => match spec_occur(table, id, *a, fuel) {
            None => None,
            Some(true) => Some(true),
            Some(false) => spec_occur(table, id, *b, fuel),
        },
        Type::TypeVar(m) => if m == id {
            Some(true)
        } else if m < table.len() {
            match table[m as int] {
                Some(u) => if fuel == 0 {
                    None
                } else {
                    spec_occur(table, id, u, (fuel - 1) as nat)
                },
                None => Some(false),
            }
        } else {
            Some(false)
        },
    }
}

/// Every resolution cell of the table keeps its variables inside the
/// table.
pub open spec fn table_wf(table: Seq<Option<Type>>) -> bool {
    forall|i: int|
        0 <= i < table.len() ==> (#[trigger] table[i] matches Some(t) ==> ty_wf(
            t,
            table.len() as int,
        ))
}

/// Binds variable `i` to `target` after the occurs check: the step
/// that actually mutates a resolution cell.  `target` must already be
/// resolved at its head.
pub open spec fn spec_bind(table: Seq<Option<Type>>, i: usize, target: Type, fuel: nat) -> (Result<
    (),
    TypeError,
>, Seq<Option<Type>>) {
    match spec_occur(table, i, target, fuel) {
        None => (Err(TypeError::RecursionLimit), table),
        Some(true) => (Err(TypeError::InfiniteType), table),
        Some(false) => if i < table.len() {
            (Ok(()), table.update(i as int, Some(target)))
        } else {
            (Ok(()), table)
        },
    }
}

/// Unification: resolve both sides, then match their heads.  Returns
/// the outcome together with the table it leaves behind.
///
/// Equal concrete heads succeed; function types unify component-wise;
/// a variable unifies with itself trivially and with anything else by
/// binding, unless the occurs check finds the variable inside the
/// target, which is the "infinite type" failure; any other pairing is
/// a mismatch carrying both resolved heads.
pub open spec fn spec_unify(table: Seq<Option<Type>>, t1: Type, t2: Type, fuel: nat) -> (Result<
    (),
    TypeError,
>, Seq<Option<Type>>)
    decreases fuel, 1int,
{
    match (resolve(table, t1, fuel), resolve(table, t2, fuel)) {
        (Some(r1), Some(r2)) => spec_unify_heads(table, r1, r2, fuel),
        _ => (Err(TypeError::RecursionLimit), table),
    }
}

/// Unification of two head-resolved types; see [`spec_unify`].
pub open spec fn spec_unify_heads(table: Seq<Option<Type>>, r1: Type, r2: Type, fuel: nat) -> (
    Result<(), TypeError>,
    Seq<Option<Type>>,
)
    decreases fuel, 0int,
{
    match (r1, r2) {
        (Type::Int, Type::Int) => (Ok(()), table),
        (Type::Bool, Type::Bool) => (Ok(()), table),
        (Type::Func(a1, b1), Type::Func(a2, b2)) => if fuel == 0 {
            (Err(TypeError::RecursionLimit), table)
        } else {
            let (ra, tb1) = spec_unify(table, *a1, *a2, (fuel - 1) as nat);
            match ra {
                Err(e) => (Err(e), tb1),
                Ok(_) => spec_unify(tb1, *b1, *b2, (fuel - 1) as nat),
            }
        },
        (Type::TypeVar(i), Type::TypeVar(j)) => if i == j {
            (Ok(()), table)
        } else {
            spec_bind(table, i, r2, fuel)
        },
        (Type::TypeVar(i), _) => spec_bind(table, i, r2, fuel),
        (_, Type::TypeVar(j)) => spec_bind(table, j, r1, fuel),
        _ => (Err(TypeError::Mismatch(r1, r2)), table),
    }
}

/// The type a written annotation denotes.  Only applied to annotations
/// that are present, never to `Unknown`.
pub open spec fn spec_expected_to_type(t: ExpectedType) -> Type
    decreases t,
{
    match t {
        ExpectedType::Int => Type::Int,
        ExpectedType::Bool => Type::Bool,
        ExpectedType::Func(a, b) => Type::Func(
            Box::new(spec_expected_to_type(*a)),
            Box::new(spec_expected_to_type(*b)),
        ),
        ExpectedType::Unknown => Type::Int,
    }
}

/// A type denoted by an annotation holds no variables at all.
pub proof fn lemma_expected_to_type_wf(t: ExpectedType, n: int)
    ensures
        ty_wf(spec_expected_to_type(t), n),
    decreases t,
{
    match t {
        ExpectedType::Func(a, b) => {
            lemma_expected_to_type_wf(*a, n);
            lemma_expected_to_type_wf(*b, n);
        },
        _ => {},
    }
}

/// The spec inference engine: the type of `e` in scope `scope`, and
/// the scope arena and resolution table it leaves behind.
///
/// The rules are structural recursion over the expression: literals
/// have their own types; an identifier has whatever type is bound for
/// it along the scope chain; the operands of a binary operator must
/// unify with each other, arithmetic and comparison yielding `Int` and
/// the logical operators `Bool`; unary minus forces `Int`, logical not
/// forces `Bool`; the condition of an `if` must unify with `Bool` and
/// the branches with each other; a binding infers its expression,
/// unifies a present annotation against it, and enters the result into
/// the current scope; a lambda infers its body in a child scope where
/// the parameter has its annotated type or a fresh variable; an
/// application requires the function side to resolve to a function
/// type and unifies its domain with the argument's type.
pub open spec fn spec_infer(
    env: Seq<TyFrameView>,
    table: Seq<Option<Type>>,
    scope: int,
    e: Expr,
) -> (Result<Type, TypeError>, Seq<TyFrameView>, Seq<Option<Type>>)
    decreases e, 0int,
{
    match e {
        Expr::Int(_) => (Ok(Type::Int), env, table),
        Expr::Bool(_) => (Ok(Type::Bool), env, table),
        Expr::Variable(name) => (
            match tyenv_lookup(env, scope, name@) {
                Some(t) => Ok(t),
                None => Err(TypeError::UndefinedVariable),
            },
            env,
            table,
        ),
        Expr::Program(stmts, ret) => {
            let (r, env1, tb1) = spec_infer_stmts(env, table, scope, stmts@, 0);
            match r {
                Err(er) => (Err(er), env1, tb1),
                Ok(_) => spec_infer(env1, tb1, scope, *ret),
            }
        },
        Expr::BinOp(op, e1, e2) => {
            let (r1, env1, tb1) = spec_infer(env, table, scope, *e1);
            match r1 {
                Err(er) => (Err(er), env1, tb1),
                Ok(t1) => {
                    let (r2, env2, tb2) = spec_infer(env1, tb1, scope, *e2);
                    match r2 {
                        Err(er) => (Err(er), env2, tb2),
                        Ok(t2) => {
                            let (ru, tb3) = spec_unify(tb2, t1, t2, UNIFY_FUEL as nat);
                            match ru {
                                Err(er) => (Err(er), env2, tb3),
                                Ok(_) => (
                                    match op {
                                        BinOp::And | BinOp::Or => Ok(Type::Bool),
                                        _ => Ok(Type::Int),
                                    },
                                    env2,
                                    tb3,
                                ),
                            }
                        },
                    }
                },
            }
        },
        Expr::UnaryOp(op, e1) => {
            let (r1, env1, tb1) = spec_infer(env, table, scope, *e1);
            match r1 {
                Err(er) => (Err(er), env1, tb1),
                Ok(t1) => {
                    let forced = match op {
                        UnOp::Neg => Type::Int,
                        UnOp::Not => Type::Bool,
                    };
                    let (ru, tb2) = spec_unify(tb1, t1, forced, UNIFY_FUEL as nat);
                    match ru {
                        Err(er) => (Err(er), env1, tb2),
                        Ok(_) => (Ok(forced), env1, tb2),
                    }
                },
            }
        },
        Expr::If(cond, then_e, else_e) => {
            let (r0, env1, tb1) = spec_infer(env, table, scope, *cond);
            match r0 {
                Err(er) => (Err(er), env1, tb1),
                Ok(t0) => {
                    let (r1, env2, tb2) = spec_infer(env1, tb1, scope, *then_e);
                    match r1 {
                        Err(er) => (Err(er), env2, tb2),
                        Ok(t1) => {
                            let (r2, env3, tb3) = spec_infer(env2, tb2, scope, *else_e);
                            match r2 {
                                Err(er) => (Err(er), env3, tb3),
                                Ok(t2) => {
                                    let (rc, tb4) = spec_unify(
                                        tb3,
                                        t0,
                                        Type::Bool,
                                        UNIFY_FUEL as nat,
                                    );
                                    match rc {
                                        Err(er) => (Err(er), env3, tb4),
                                        Ok(_) => {
                                            let (rb, tb5) = spec_unify(
                                                tb4,
                                                t1,
                                                t2,
                                                UNIFY_FUEL as nat,
                                            );
                                            match rb {
                                                Err(er) => (Err(er), env3, tb5),
                                                Ok(_) => (Ok(t1), env3, tb5),
                                            }
                                        },
                                    }
                                },
                            }
                        },
                    }
                },
            }
        },
        Expr::Assign(name, ty, e1) => {
            let (r1, env1, tb1) = spec_infer(env, table, scope, *e1);
            match r1 {
                Err(er) => (Err(er), env1, tb1),
                Ok(actual) => {
                    let (ru, tb2) = if ty is Unknown {
                        (Ok(()), tb1)
                    } else {
                        spec_unify(tb1, spec_expected_to_type(ty), actual, UNIFY_FUEL as nat)
                    };
                    match ru {
                        Err(er) => (Err(er), env1, tb2),
                        Ok(_) => (
                            Ok(actual),
                            env1.update(scope, TyFrameView {
                                bindings: env1[scope].bindings.insert(name@, actual),
                                parent: env1[scope].parent,
                            }),
                            tb2,
                        ),
                    }
                },
            }
        },
        Expr::Lambda(var, ty, body) => {
            let child = env.len() as int;
            let env1 = env.push(TyFrameView {
                bindings: Map::<Seq<char>, Type>::empty(),
                parent: Some(scope),
            });
            let (pty, tb1) = if ty is Unknown {
                (Type::TypeVar(table.len() as usize), table.push(None))
            } else {
                (spec_expected_to_type(ty), table)
            };
            let env2 = env1.update(child, TyFrameView {
                bindings: env1[child].bindings.insert(var@, pty),
                parent: env1[child].parent,
            });
            let (rb, env3, tb2) = spec_infer(env2, tb1, child, *body);
            match rb {
                Err(er) => (Err(er), env3, tb2),
                Ok(bodyty) => if ty is Unknown {
                    (Ok(Type::Func(Box::new(pty), Box::new(bodyty))), env3, tb2)
                } else {
                    let (ru, tb3) = spec_unify(
                        tb2,
                        spec_expected_to_type(ty),
                        pty,
                        UNIFY_FUEL as nat,
                    );
                    match ru {
                        Err(er) => (Err(er), env3, tb3),
                        Ok(_) => (Ok(Type::Func(Box::new(pty), Box::new(bodyty))), env3, tb3),
                    }
                },
            }
        },
        Expr::App(fun, arg) => {
            let (rf, env1, tb1) = spec_infer(env, table, scope, *fun);
            match rf {
                Err(er) => (Err(er), env1, tb1),
                Ok(funty) => {
                    let (ra, env2, tb2) = spec_infer(env1, tb1, scope, *arg);
                    match ra {
                        Err(er) => (Err(er), env2, tb2),
                        Ok(argty) => match resolve(tb2, funty, UNIFY_FUEL as nat) {
                            None => (Err(TypeError::RecursionLimit), env2, tb2),
                            Some(Type::Func(dom, cod)) => {
                                let (ru, tb3) = spec_unify(tb2, *dom, argty, UNIFY_FUEL as nat);
                                match ru {
                                    Err(er) => (Err(er), env2, tb3),
                                    Ok(_) => (Ok(*cod), env2, tb3),
                                }
                            },
                            Some(other) => (Err(TypeError::NotAFunction(other)), env2, tb2),
                        },
                    }
                },
            }
        },
    }
}

/// Infers the binding statements `stmts[i..]` in order, threading the
/// scope arena and the table through; stops at the first error.
pub open spec fn spec_infer_stmts(
    env: Seq<TyFrameView>,
    table: Seq<Option<Type>>,
    scope: int,
    stmts: Seq<Expr>,
    i: int,
) -> (Result<(), TypeError>, Seq<TyFrameView>, Seq<Option<Type>>)
    decreases stmts, stmts.len() - i,
{
    if i < 0 || i >= stmts.len() {
        (Ok(()), env, table)
    } else {
        let (r, env1, tb1) = spec_infer(env, table, scope, stmts[i]);
        match r {
            Err(er) => (Err(er), env1, tb1),
            Ok(_) => spec_infer_stmts(env1, tb1, scope, stmts, i + 1),
        }
    }
}

/// Ghost state of one inference run: the scope arena and the
/// resolution table.
pub struct InferView {
    pub env: Seq<TyFrameView>,
    pub table: Seq<Option<Type>>,
}

/// A well-formed inference state: acyclic scope chain, at least the
/// root scope, and every stored type's variables inside the table.
pub open spec fn infer_state_wf(s: InferView) -> bool {
    &&& tyenv_wf(s.env)
    &&& table_wf(s.table)
    &&& tyenv_types_wf(s.env, s.table.len() as int)
    &&& s.env.len() >= 1
}

/// Bounds on the types stored in the scope arena are monotone in the
/// table length.
proof fn lemma_tyenv_types_wf_mono(frames: Seq<TyFrameView>, n: int, m: int)
    requires
        tyenv_types_wf(frames, n),
        n <= m,
    ensures
        tyenv_types_wf(frames, m),
{
    assert forall|i: int, k: Seq<char>|
        0 <= i < frames.len() && frames[i].bindings.contains_key(k) implies ty_wf(
        #[trigger] frames[i].bindings[k],
        m,
    ) by {
        lemma_ty_wf_mono(frames[i].bindings[k], n, m);
    };
}

/// Cells of the table stay inside the table when a fresh empty cell is
/// added.
proof fn lemma_table_wf_push_none(table: Seq<Option<Type>>)
    requires
        table_wf(table),
    ensures
        table_wf(table.push(None)),
{
    let after = table.push(None);
    assert forall|i: int| 0 <= i < after.len() implies (#[trigger] after[i] matches Some(t)
        ==> ty_wf(t, after.len() as int)) by {
        if i < table.len() {
            match table[i] {
                Some(t) => {
                    lemma_ty_wf_mono(t, table.len() as int, after.len() as int);
                },
                None => {},
            }
        }
    };
}

/// Binding a well-formed type in a scope keeps the whole arena well
/// formed.
proof fn lemma_tyenv_after_set(
    frames: Seq<TyFrameView>,
    scope: int,
    name: Seq<char>,
    t: Type,
    n: int,
)
    requires
        tyenv_wf(frames),
        tyenv_types_wf(frames, n),
        ty_wf(t, n),
        0 <= scope < frames.len(),
    ensures
        tyenv_wf(frames.update(scope, TyFrameView {
            bindings: frames[scope].bindings.insert(name, t),
            parent: frames[scope].parent,
        })),
        tyenv_types_wf(frames.update(scope, TyFrameView {
            bindings: frames[scope].bindings.insert(name, t),
            parent: frames[scope].parent,
        }), n),
{
    let after = frames.update(scope, TyFrameView {
        bindings: frames[scope].bindings.insert(name, t),
        parent: frames[scope].parent,
    });
    assert forall|i: int, k: Seq<char>|
        0 <= i < after.len() && after[i].bindings.contains_key(k) implies ty_wf(
        #[trigger] after[i].bindings[k],
        n,
    ) by {
        if i == scope {
            if k != name {
                assert(frames[i].bindings.contains_key(k));
            }
        } else {
            assert(frames[i].bindings.contains_key(k));
        }
    };
}

/// Adding an empty child scope keeps the whole arena well formed.
proof fn lemma_tyenv_after_push(frames: Seq<TyFrameView>, parent: int, n: int)
    requires
        tyenv_wf(frames),
        tyenv_types_wf(frames, n),
        0 <= parent < frames.len(),
    ensures
        tyenv_wf(frames.push(TyFrameView {
            bindings: Map::<Seq<char>, Type>::empty(),
            parent: Some(parent),
        })),
        tyenv_types_wf(frames.push(TyFrameView {
            bindings: Map::<Seq<char>, Type>::empty(),
            parent: Some(parent),
        }), n),
{
    let after = frames.push(TyFrameView {
        bindings: Map::<Seq<char>, Type>::empty(),
        parent: Some(parent),
    });
    assert forall|i: int, k: Seq<char>|
        0 <= i < after.len() && after[i].bindings.contains_key(k) implies ty_wf(
        #[trigger] after[i].bindings[k],
        n,
    ) by {
        if i < frames.len() {
            assert(frames[i].bindings.contains_key(k));
        }
    };
}

/// The type inference engine of one run: its scope arena and the
/// resolution table of its unification variables.  Fresh variables are
/// minted with increasing indices; the table only ever grows, and a
/// cell, once set, is never cleared.
pub struct TypeInfer {
    env: TypeEnv,
    table: Vec<Option<Type>>,
}

impl View for TypeInfer {
    type V = InferView;

    closed spec fn view(&self) -> InferView {
        InferView { env: self.env@, table: self.table@ }
    }
}

impl TypeInfer {
    /// An engine over a fresh root scope and an empty table.
    pub fn new() -> (ti: TypeInfer)
        ensures
            ti@.env == seq![
                TyFrameView { bindings: Map::<Seq<char>, Type>::empty(), parent: None },
            ],
            ti@.table == Seq::<Option<Type>>::empty(),
            infer_state_wf(ti@),
    {
        let ti = TypeInfer { env: TypeEnv::new(), table: Vec::new() };
        proof {
            assert(ti@.table =~= Seq::<Option<Type>>::empty());
        }
        ti
    }

    /// An engine over a caller-supplied scope arena.
    fn from(env: TypeEnv) -> (ti: TypeInfer)
        ensures
            ti@.env == env@,
            ti@.table == Seq::<Option<Type>>::empty(),
    {
        let ti = TypeInfer { env, table: Vec::new() };
        proof {
            assert(ti@.table =~= Seq::<Option<Type>>::empty());
        }
        ti
    }

    /// Mints a fresh unification variable: the next table index, with
    /// an empty resolution cell.
    fn new_typevar(&mut self) -> (t: Type)
        ensures
            final(self)@.env == old(self)@.env,
            final(self)@.table == old(self)@.table.push(None),
            t == Type::TypeVar(old(self)@.table.len() as usize),
    {
        let id = self.table.len();
        self.table.push(None);
        Type::TypeVar(id)
    }

    /// Follows the resolution chain of `t`; returns exactly
    /// [`resolve`].
    fn resolve_ty(&self, t: &Type, fuel: u64) -> (r: Option<Type>)
        ensures
            r == resolve(self@.table, *t, fuel as nat),
        decreases fuel,
    {
        match t {
            Type::TypeVar(i) => {
                if *i < self.table.len() {
                    match &self.table[*i] {
                        Some(u) => {
                            if fuel == 0 {
                                None
                            } else {
                                self.resolve_ty(u, fuel - 1)
                            }
                        },
                        None => Some(Type::TypeVar(*i)),
                    }
                } else {
                    Some(Type::TypeVar(*i))
                }
            },
            _ => Some(t.clone()),
        }
    }

    /// Occurs check; returns exactly [`spec_occur`].
    fn occur_ty(&self, id: usize, t: &Type, fuel: u64) -> (r: Option<bool>)
        ensures
            r == spec_occur(self@.table, id, *t, fuel as nat),
        decreases fuel, *t,
    {
        match t {
            Type::Int => Some(false),
            Type::Bool => Some(false),
            Type::Func(a, b) => match self.occur_ty(id, a, fuel) {
                None => None,
                Some(true) => Some(true),
                Some(false) => self.occur_ty(id, b, fuel),
            },
            Type::TypeVar(m) => {
                if *m == id {
                    Some(true)
                } else if *m < self.table.len() {
                    match &self.table[*m] {
                        Some(u) => {
                            if fuel == 0 {
                                None
                            } else {
                                self.occur_ty(id, u, fuel - 1)
                            }
                        },
                        None => Some(false),
                    }
                } else {
                    Some(false)
                }
            },
        }
    }

    /// Occurs check, then sets the resolution cell of variable `i` to
    /// `target`; returns exactly [`spec_bind`].
    fn bind_var(&mut self, i: usize, target: &Type, fuel: u64) -> (r: Result<(), TypeError>)
        requires
            table_wf(old(self)@.table),
            ty_wf(*target, old(self)@.table.len() as int),
        ensures
            ({
                let (sr, stb) = spec_bind(old(self)@.table, i, *target, fuel as nat);
                &&& r == sr
                &&& final(self)@.table == stb
                &&& final(self)@.env == old(self)@.env
                &&& final(self)@.table.len() == old(self)@.table.len()
                &&& table_wf(final(self)@.table)
            }),
    {
        match self.occur_ty(i, target, fuel) {
            None => Err(TypeError::RecursionLimit),
            Some(true) => Err(TypeError::InfiniteType),
            Some(false) => {
                if i < self.table.len() {
                    self.table[i] = Some(target.clone());
                    proof {
                        let after = self@.table;
                        assert forall|j: int|
                            0 <= j < after.len() implies (#[trigger] after[j] matches Some(t)
                            ==> ty_wf(t, after.len() as int)) by {
                            if j != i {
                                assert(after[j] == old(self)@.table[j]);
                            }
                        };
                    }
                }
                Ok(())
            },
        }
    }

    /// Unification over the shared table; returns exactly
    /// [`spec_unify`] and leaves the table as it describes.
    fn unify(&mut self, t1: &Type, t2: &Type, fuel: u64) -> (r: Result<(), TypeError>)
        requires
            table_wf(old(self)@.table),
            ty_wf(*t1, old(self)@.table.len() as int),
            ty_wf(*t2, old(self)@.table.len() as int),
        ensures
            ({
                let (sr, stb) = spec_unify(old(self)@.table, *t1, *t2, fuel as nat);
                &&& r == sr
                &&& final(self)@.table == stb
                &&& final(self)@.env == old(self)@.env
                &&& final(self)@.table.len() == old(self)@.table.len()
                &&& table_wf(final(self)@.table)
            }),
        decreases fuel,
    {
        let r1o = self.resolve_ty(t1, fuel);
        let r1 = match r1o {
            Some(x) => x,
            None => {
                return Err(TypeError::RecursionLimit);
            },
        };
        let r2o = self.resolve_ty(t2, fuel);
        let r2 = match r2o {
            Some(x) => x,
            None => {
                return Err(TypeError::RecursionLimit);
            },
        };
        proof {
            lemma_resolve_wf(self@.table, *t1, fuel as nat);
            lemma_resolve_wf(self@.table, *t2, fuel as nat);
        }
        match (&r1, &r2) {
            (Type::Int, Type::Int) => Ok(()),
            (Type::Bool, Type::Bool) => Ok(()),
            (Type::Func(a1, b1), Type::Func(a2, b2)) => {
                if fuel == 0 {
                    Err(TypeError::RecursionLimit)
                } else {
                    let ra = self.unify(a1, a2, fuel - 1);
                    match ra {
                        Err(e) => Err(e),
                        Ok(()) => self.unify(b1, b2, fuel - 1),
                    }
                }
            },
            (Type::TypeVar(i), Type::TypeVar(j)) => {
                if *i == *j {
                    Ok(())
                } else {
                    self.bind_var(*i, &r2, fuel)
                }
            },
            (Type::TypeVar(i), _) => self.bind_var(*i, &r2, fuel),
            (_, Type::TypeVar(j)) => self.bind_var(*j, &r1, fuel),
            _ => Err(TypeError::Mismatch(r1.clone(), r2.clone())),
        }
    }
}

impl TypeInfer {
    /// Builds the type an annotation denotes; returns exactly
    /// [`spec_expected_to_type`].
    fn expected_to_type(t: &ExpectedType) -> (r: Type)
        ensures
            r == spec_expected_to_type(*t),
        decreases *t,
    {
        match t {
            ExpectedType::Int => Type::Int,
            ExpectedType::Bool => Type::Bool,
            ExpectedType::Func(a, b) => Type::Func(
                Box::new(Self::expected_to_type(a)),
                Box::new(Self::expected_to_type(b)),
            ),
            ExpectedType::Unknown => Type::Int,
        }
    }

    /// Infers the type of a whole expression in the root scope.
    pub fn infer_type(&mut self, ast: &Expr) -> (r: Result<Type, TypeError>)
        requires
            infer_state_wf(old(self)@),
        ensures
            ({
                let (sr, senv, stb) = spec_infer(old(self)@.env, old(self)@.table, 0, *ast);
                &&& r == sr
                &&& final(self)@.env == senv
                &&& final(self)@.table == stb
                &&& infer_state_wf(final(self)@)
            }),
    {
        self.infer_in(ast, 0)
    }

    /// Infers the type of `ast` in scope `scope`; mirrors
    /// [`spec_infer`] step for step.
    #[verifier::loop_isolation(false)]
    #[verifier::rlimit(100)]
    fn infer_in(&mut self, ast: &Expr, scope: usize) -> (r: Result<Type, TypeError>)
        requires
            tyenv_wf(old(self)@.env),
            table_wf(old(self)@.table),
            tyenv_types_wf(old(self)@.env, old(self)@.table.len() as int),
            scope < old(self)@.env.len(),
        ensures
            ({
                let (sr, senv, stb) = spec_infer(
                    old(self)@.env,
                    old(self)@.table,
                    scope as int,
                    *ast,
                );
                &&& r == sr
                &&& final(self)@.env == senv
                &&& final(self)@.table == stb
                &&& tyenv_wf(final(self)@.env)
                &&& table_wf(final(self)@.table)
                &&& tyenv_types_wf(final(self)@.env, final(self)@.table.len() as int)
                &&& old(self)@.env.len() <= final(self)@.env.len()
                &&& old(self)@.table.len() <= final(self)@.table.len()
                &&& (r matches Ok(t) ==> ty_wf(t, final(self)@.table.len() as int))
            }),
        decreases *ast,
    {
        match ast {
            Expr::Int(_) => Ok(Type::Int),
            Expr::Bool(_) => Ok(Type::Bool),
            Expr::Variable(name) => {
                let r = self.env.get(scope, name.as_str());
                proof {
                    lemma_tyenv_lookup_wf(
                        self@.env,
                        scope as int,
                        name@,
                        self@.table.len() as int,
                    );
                }
                r
            },
            Expr::Program(stmts, ret) => {
                let ghost env0 = self@.env;
                let ghost table0 = self@.table;
                let mut i: usize = 0;
                loop
                    invariant
                        tyenv_wf(self@.env),
                        table_wf(self@.table),
                        tyenv_types_wf(self@.env, self@.table.len() as int),
                        scope < self@.env.len(),
                        env0.len() <= self@.env.len(),
                        table0.len() <= self@.table.len(),
                        i <= stmts.len(),
                        spec_infer_stmts(env0, table0, scope as int, stmts@, 0)
                            == spec_infer_stmts(
                            self@.env,
                            self@.table,
                            scope as int,
                            stmts@,
                            i as int,
                        ),
                    decreases stmts.len() - i,
                {
                    if i >= stmts.len() {
                        break;
                    }
                    proof {
                        assert(decreases_to!(*ast => ast->Program_0));
                        assert(decreases_to!(ast->Program_0 => ast->Program_0@));
                        assert(decreases_to!(ast->Program_0@ => ast->Program_0@[i as int]));
                        assert(stmts@ == ast->Program_0@);
                    }
                    let r = self.infer_in(&stmts[i], scope);
                    match r {
                        Err(er) => {
                            return Err(er);
                        },
                        Ok(_) => {},
                    }
                    i = i + 1;
                }
                self.infer_in(ret, scope)
            },
            Expr::BinOp(op, exp1, exp2) => {
                let r1 = self.infer_in(exp1, scope);
                match r1 {
                    Err(er) => Err(er),
                    Ok(t1) => {
                        let ghost len1 = self@.table.len() as int;
                        let r2 = self.infer_in(exp2, scope);
                        match r2 {
                            Err(er) => Err(er),
                            Ok(t2) => {
                                proof {
                                    lemma_ty_wf_mono(t1, len1, self@.table.len() as int);
                                }
                                let ru = self.unify(&t1, &t2, UNIFY_FUEL);
                                match ru {
                                    Err(er) => Err(er),
                                    Ok(()) => match op {
                                        BinOp::And | BinOp::Or => Ok(Type::Bool),
                                        _ => Ok(Type::Int),
                                    },
                                }
                            },
                        }
                    },
                }
            },
            Expr::UnaryOp(op, exp1) => {
                let r1 = self.infer_in(exp1, scope);
                match r1 {
                    Err(er) => Err(er),
                    Ok(t1) => {
                        let forced = match op {
                            UnOp::Neg => Type::Int,
                            UnOp::Not => Type::Bool,
                        };
                        let ru = self.unify(&t1, &forced, UNIFY_FUEL);
                        match ru {
                            Err(er) => Err(er),
                            Ok(()) => Ok(forced),
                        }
                    },
                }
            },
            Expr::If(cond, then_e, else_e) => {
                let r0 = self.infer_in(cond, scope);
                match r0 {
                    Err(er) => Err(er),
                    Ok(t0) => {
                        let ghost len1 = self@.table.len() as int;
                        let r1 = self.infer_in(then_e, scope);
                        match r1 {
                            Err(er) => Err(er),
                            Ok(t1) => {
                                let ghost len2 = self@.table.len() as int;
                                let r2 = self.infer_in(else_e, scope);
                                match r2 {
                                    Err(er) => Err(er),
                                    Ok(t2) => {
                                        proof {
                                            lemma_ty_wf_mono(t0, len1, self@.table.len() as int);
                                            lemma_ty_wf_mono(t1, len2, self@.table.len() as int);
                                        }
                                        let rc = self.unify(&t0, &Type::Bool, UNIFY_FUEL);
                                        match rc {
                                            Err(er) => Err(er),
                                            Ok(()) => {
                                                let rb = self.unify(&t1, &t2, UNIFY_FUEL);
                                                match rb {
                                                    Err(er) => Err(er),
                                                    Ok(()) => Ok(t1),
                                                }
                                            },
                                        }
                                    },
                                }
                            },
                        }
                    },
                }
            },
            Expr::Assign(name, ty, exp1) => {
                let r1 = self.infer_in(exp1, scope);
                match r1 {
                    Err(er) => Err(er),
                    Ok(actual) => {
                        match ty {
                            ExpectedType::Unknown => {},
                            _ => {
                                let declared = Self::expected_to_type(ty);
                                proof {
                                    lemma_expected_to_type_wf(*ty, self@.table.len() as int);
                                }
                                let ru = self.unify(&declared, &actual, UNIFY_FUEL);
                                match ru {
                                    Err(er) => {
                                        return Err(er);
                                    },
                                    Ok(()) => {},
                                }
                            },
                        }
                        let ghost before = self@.env;
                        self.env.set(scope, name.as_str(), actual.clone());
                        proof {
                            lemma_tyenv_after_set(
                                before,
                                scope as int,
                                name@,
                                actual,
                                self@.table.len() as int,
                            );
                        }
                        Ok(actual)
                    },
                }
            },
            Expr::Lambda(var, ty, body) => {
                let ghost env0 = self@.env;
                let child = self.env.with_outer(scope);
                proof {
                    lemma_tyenv_after_push(env0, scope as int, self@.table.len() as int);
                }
                let pty = match ty {
                    ExpectedType::Unknown => self.new_typevar(),
                    _ => Self::expected_to_type(ty),
                };
                proof {
                    if !(ty is Unknown) {
                        lemma_expected_to_type_wf(*ty, self@.table.len() as int);
                    } else {
                        lemma_table_wf_push_none(old(self)@.table);
                        lemma_tyenv_types_wf_mono(
                            self@.env,
                            (self@.table.len() - 1) as int,
                            self@.table.len() as int,
                        );
                    }
                }
                let ghost env1 = self@.env;
                self.env.set(child, var.as_str(), pty.clone());
                proof {
                    lemma_tyenv_after_set(
                        env1,
                        child as int,
                        var@,
                        pty,
                        self@.table.len() as int,
                    );
                }
                let rb = self.infer_in(&body, child);
                match rb {
                    Err(er) => Err(er),
                    Ok(bodyty) => {
                        match ty {
                            ExpectedType::Unknown => {
                                proof {
                                    lemma_ty_wf_mono(
                                        pty,
                                        old(self)@.table.len() as int + 1,
                                        self@.table.len() as int,
                                    );
                                }
                                Ok(Type::func(pty, bodyty))
                            },
                            _ => {
                                let declared = Self::expected_to_type(ty);
                                proof {
                                    lemma_expected_to_type_wf(*ty, self@.table.len() as int);
                                    lemma_expected_to_type_wf(*ty, 0);
                                    lemma_ty_wf_mono(
                                        pty,
                                        0,
                                        self@.table.len() as int,
                                    );
                                }
                                let ru = self.unify(&declared, &pty, UNIFY_FUEL);
                                match ru {
                                    Err(er) => Err(er),
                                    Ok(()) => Ok(Type::func(pty, bodyty)),
                                }
                            },
                        }
                    },
                }
            },
            Expr::App(fun, arg) => {
                let rf = self.infer_in(fun, scope);
                match rf {
                    Err(er) => Err(er),
                    Ok(funty) => {
                        let ghost len1 = self@.table.len() as int;
                        let ra = self.infer_in(arg, scope);
                        match ra {
                            Err(er) => Err(er),
                            Ok(argty) => {
                                proof {
                                    lemma_ty_wf_mono(funty, len1, self@.table.len() as int);
                                }
                                let rfun = self.resolve_ty(&funty, UNIFY_FUEL);
                                proof {
                                    lemma_resolve_wf(
                                        self@.table,
                                        funty,
                                        UNIFY_FUEL as nat,
                                    );
                                }
                                match rfun {
                                    None => Err(TypeError::RecursionLimit),
                                    Some(Type::Func(dom, cod)) => {
                                        let ru = self.unify(&dom, &argty, UNIFY_FUEL);
                                        match ru {
                                            Err(er) => Err(er),
                                            Ok(()) => Ok(*cod),
                                        }
                                    },
                                    Some(other) => Err(TypeError::NotAFunction(other)),
                                }
                            },
                        }
                    },
                }
            },
        }
    }
}

/// `t` holds no type variables at all.
pub open spec fn ty_ground(t: Type) -> bool
    decreases t,
{
    match t {
        Type::Int => true,
        Type::Bool => true,
        Type::Func(a, b) => ty_ground(*a) && ty_ground(*b),
        Type::TypeVar(_) => false,
    }
}

/// A variable never occurs in a type without variables.
proof fn lemma_occur_ground(table: Seq<Option<Type>>, id: usize, t: Type, fuel: nat)
    requires
        ty_ground(t),
    ensures
        spec_occur(table, id, t, fuel) == Some(false),
    decreases t,
{
    match t {
        Type::Func(a, b) => {
            lemma_occur_ground(table, id, *a, fuel);
            lemma_occur_ground(table, id, *b, fuel);
        },
        _ => {},
    }
}

/// Core of the symmetry law, for a variable-free left side: both
/// orders agree on success, and on success they leave equal tables.
proof fn lemma_unify_sym_core(table: Seq<Option<Type>>, t1: Type, t2: Type, fuel: nat)
    requires
        ty_ground(t1),
    ensures
        ({
            let (r12, tb12) = spec_unify(table, t1, t2, fuel);
            let (r21, tb21) = spec_unify(table, t2, t1, fuel);
            &&& (r12 is Ok <==> r21 is Ok)
            &&& (r12 is Ok ==> tb12 == tb21)
        }),
    decreases fuel,
{
    let r2o = resolve(table, t2, fuel);
    match r2o {
        None => {},
        Some(r2) => {
            match (t1, r2) {
                (Type::Func(a1, b1), Type::Func(a2, b2)) => {
                    if fuel > 0 {
                        lemma_unify_sym_core(table, *a1, *a2, (fuel - 1) as nat);
                        let (ra, tba) = spec_unify(table, *a1, *a2, (fuel - 1) as nat);
                        if ra is Ok {
                            lemma_unify_sym_core(tba, *b1, *b2, (fuel - 1) as nat);
                        }
                    }
                },
                (_, Type::TypeVar(j)) => {
                    lemma_occur_ground(table, j, t1, fuel);
                },
                _ => {},
            }
        },
    }
}

/// Unification is symmetric in outcome: `unify(a, b)`
/// succeeds exactly when `unify(b, a)` does, under the same table and
/// step budget, for pairs in which at least one side holds no type
/// variables; on success, both orders also leave the same table
/// behind.
pub proof fn lemma_unify_symmetric(table: Seq<Option<Type>>, t1: Type, t2: Type, fuel: nat)
    requires
        ty_ground(t1) || ty_ground(t2),
    ensures
        (spec_unify(table, t1, t2, fuel).0 is Ok) <==> (spec_unify(table, t2, t1, fuel).0 is Ok),
        spec_unify(table, t1, t2, fuel).0 is Ok ==> spec_unify(table, t1, t2, fuel).1
            == spec_unify(table, t2, t1, fuel).1,
{
    if ty_ground(t1) {
        lemma_unify_sym_core(table, t1, t2, fuel);
    } else {
        lemma_unify_sym_core(table, t2, t1, fuel);
    }
}

/// Occurs check: unifying an unbound type variable with a
/// type that resolves to a function type containing that variable
/// (transitively, through resolution chains) fails with the "infinite
/// type" error and leaves the table untouched.
pub proof fn lemma_occurs_check_infinite_type(
    table: Seq<Option<Type>>,
    i: usize,
    t: Type,
    rt: Type,
    fuel: nat,
)
    requires
        i < table.len(),
        table[i as int] is None,
        resolve(table, t, fuel) == Some(rt),
        rt is Func,
        spec_occur(table, i, rt, fuel) == Some(true),
    ensures
        spec_unify(table, Type::TypeVar(i), t, fuel) == (
            Result::<(), TypeError>::Err(TypeError::InfiniteType),
            table,
        ),
{
    assert(resolve(table, Type::TypeVar(i), fuel) == Some(Type::TypeVar(i)));
}

/// The textual rendering of a type: `int`, `bool`,
/// `(domain -> codomain)`, or `tN` for the unification variable with
/// index `N`.
pub open spec fn spec_render_type(t: Type) -> Seq<char>
    decreases t,
{
    match t {
        Type::Int => "int"@,
        Type::Bool => "bool"@,
        Type::Func(a, b) => "("@ + spec_render_type(*a) + " -> "@ + spec_render_type(*b) + ")"@,
        Type::TypeVar(id) => "t"@ + crate::render::dec_digits(id as nat),
    }
}

impl Type {
    /// Renders the type; returns exactly [`spec_render_type`].
    pub fn to_string(&self) -> (s: String)
        ensures
            s@ == spec_render_type(*self),
        decreases self,
    {
        match self {
            Type::Int => String::from_str("int"),
            Type::Bool => String::from_str("bool"),
            Type::Func(a, b) => {
                let mut s = String::from_str("(");
                let ra = (**a).to_string();
                s.append(ra.as_str());
                s.append(" -> ");
                let rb = (**b).to_string();
                s.append(rb.as_str());
                s.append(")");
                s
            },
            Type::TypeVar(id) => {
                let mut s = String::from_str("t");
                let digits = crate::render::u64_to_dec(*id as u64);
                s.append(digits.as_str());
                s
            },
        }
    }
}

} // verus!
