//! Scope chains for the evaluator.
//!
//! All scopes of one evaluation run live in a single arena ([`Env`]);
//! a scope is addressed by its index.  Each scope holds its local
//! bindings and the handle of its enclosing scope.  Sharing a parent
//! handle is how several closures capture one and the same scope, and
//! why they observe bindings added to that scope after capture.

use vstd::prelude::*;
use crate::eval::EvalError;
use crate::internal_value::Value;

verus! {

/// One lexical scope: local bindings in insertion order (a later entry
/// for the same name shadows an earlier one) plus the parent handle.
pub struct Frame {
    entries: Vec<(String, Value)>,
    parent: Option<usize>,
}

/// Mathematical model of one scope: the bindings as a map (insertion
/// order folded away, last write wins) and the parent handle.
pub struct FrameView {
    pub bindings: Map<Seq<char>, Value>,
    pub parent: Option<int>,
}

/// Folds an association list into a map; a later entry wins.
pub open spec fn assoc_map(entries: Seq<(String, Value)>) -> Map<Seq<char>, Value>
    decreases entries.len(),
{
    if entries.len() == 0 {
        Map::empty()
    } else {
        assoc_map(entries.drop_last()).insert(entries.last().0@, entries.last().1)
    }
}

impl View for Frame {
    type V = FrameView;

    closed spec fn view(&self) -> FrameView {
        FrameView {
            bindings: assoc_map(self.entries@),
            parent: match self.parent {
                Some(p) => Some(p as int),
                None => None,
            },
        }
    }
}

/// A value is well formed for an arena of `n` scopes when any scope
/// handle it carries points into the arena.
pub open spec fn value_wf(v: Value, n: int) -> bool {
    match v {
        Value::Lambda(_, _, h) => h < n,
        _ => true,
    }
}

/// Scope `i` is well formed: its parent (if any) comes strictly before
/// it in the arena, and every bound value points into the arena.
pub open spec fn frame_wf(frames: Seq<FrameView>, i: int) -> bool {
    &&& (frames[i].parent matches Some(p) ==> 0 <= p < i)
    &&& forall|k: Seq<char>|
        frames[i].bindings.contains_key(k) ==> value_wf(
            #[trigger] frames[i].bindings[k],
            frames.len() as int,
        )
}

/// Every scope of the arena is well formed.
pub open spec fn env_wf(frames: Seq<FrameView>) -> bool {
    forall|i: int| 0 <= i < frames.len() ==> #[trigger] frame_wf(frames, i)
}

/// Name lookup: search the local bindings of `scope`, then the parent
/// chain, outward until found or exhausted.
pub open spec fn env_lookup(frames: Seq<FrameView>, scope: int, name: Seq<char>) -> Option<Value>
    decreases scope,
{
    if !(0 <= scope < frames.len()) {
        None
    } else if frames[scope].bindings.contains_key(name) {
        Some(frames[scope].bindings[name])
    } else {
        match frames[scope].parent {
            Some(p) => if 0 <= p < scope {
                env_lookup(frames, p, name)
            } else {
                None
            },
            None => None,
        }
    }
}

/// A value found by lookup in a well-formed arena is itself well formed.
pub proof fn lemma_env_lookup_wf(frames: Seq<FrameView>, scope: int, name: Seq<char>)
    requires
        env_wf(frames),
    ensures
        env_lookup(frames, scope, name) matches Some(v) ==> value_wf(v, frames.len() as int),
    decreases scope,
{
    if 0 <= scope < frames.len() {
        assert(frame_wf(frames, scope));
        if !frames[scope].bindings.contains_key(name) {
            match frames[scope].parent {
                Some(p) => {
                    if 0 <= p < scope {
                        lemma_env_lookup_wf(frames, p, name);
                    }
                },
                None => {},
            }
        }
    }
}

/// The scope arena of one evaluation run.  Scope 0 is the root scope;
/// scopes are only ever added, never removed, so handles stay valid
/// for the whole run.
pub struct Env {
    frames: Vec<Frame>,
}

impl View for Env {
    type V = Seq<FrameView>;

    closed spec fn view(&self) -> Seq<FrameView> {
        self.frames@.map_values(|f: Frame| f@)
    }
}

impl Env {
    /// A fresh arena holding just the empty root scope.
    pub fn new() -> (e: Env)
        ensures
            e@ == seq![FrameView { bindings: Map::<Seq<char>, Value>::empty(), parent: None }],
            env_wf(e@),
    {
        let mut frames: Vec<Frame> = Vec::new();
        frames.push(Frame { entries: Vec::new(), parent: None });
        let e = Env { frames };
        proof {
            assert(e@ =~= seq![
                FrameView { bindings: Map::<Seq<char>, Value>::empty(), parent: None },
            ]);
        }
        e
    }

    /// Number of scopes in the arena.
    pub fn len(&self) -> (n: usize)
        ensures
            n == self@.len(),
    {
        self.frames.len()
    }

    /// Adds a fresh empty scope whose parent is `outer` and returns its
    /// handle.
    pub fn with_outer(&mut self, outer: usize) -> (h: usize)
        requires
            env_wf(old(self)@),
            outer < old(self)@.len(),
        ensures
            final(self)@ == old(self)@.push(
                FrameView { bindings: Map::<Seq<char>, Value>::empty(), parent: Some(outer as int) },
            ),
            h == old(self)@.len(),
            env_wf(final(self)@),
    {
        let h = self.frames.len();
        self.frames.push(Frame { entries: Vec::new(), parent: Some(outer) });
        proof {
            let pushed = FrameView {
                bindings: Map::<Seq<char>, Value>::empty(),
                parent: Some(outer as int),
            };
            assert(self@ =~= old(self)@.push(pushed));
            assert forall|i: int| 0 <= i < self@.len() implies #[trigger] frame_wf(self@, i) by {
                if i < old(self)@.len() {
                    assert(frame_wf(old(self)@, i));
                    assert(self@[i] == old(self)@[i]);
                }
            };
        }
        h
    }

    /// Binds `name` to `val` in scope `scope`, shadowing any earlier
    /// binding of the same name in that scope.
    pub fn set(&mut self, scope: usize, name: &str, val: Value)
        requires
            scope < old(self)@.len(),
        ensures
            final(self)@ == old(self)@.update(scope as int, FrameView {
                bindings: old(self)@[scope as int].bindings.insert(name@, val),
                parent: old(self)@[scope as int].parent,
            }),
    {
        let owned: String = name.to_owned();
        let frame: &mut Frame = &mut self.frames[scope];
        frame.entries.push((owned, val));
        proof {
            let s = scope as int;
            assert(self.frames@[s].entries@.drop_last() =~= old(self).frames@[s].entries@);
            assert(self@ =~= old(self)@.update(s, FrameView {
                bindings: old(self)@[s].bindings.insert(name@, val),
                parent: old(self)@[s].parent,
            }));
        }
    }

    /// Looks `name` up in the local bindings of scope `i` alone.
    fn frame_get(&self, i: usize, name: &String) -> (r: Option<Value>)
        requires
            i < self@.len(),
        ensures
            r == if self@[i as int].bindings.contains_key(name@) {
                Some(self@[i as int].bindings[name@])
            } else {
                Option::<Value>::None
            },
    {
        let frame = &self.frames[i];
        let mut j = frame.entries.len();
        proof {
            assert(frame.entries@.take(j as int) =~= frame.entries@);
        }
        loop
            invariant
                i < self@.len(),
                frame == &self.frames[i as int],
                j <= frame.entries.len(),
                assoc_map(frame.entries@).contains_key(name@) == assoc_map(
                    frame.entries@.take(j as int),
                ).contains_key(name@),
                assoc_map(frame.entries@).contains_key(name@) ==> assoc_map(
                    frame.entries@,
                )[name@] == assoc_map(frame.entries@.take(j as int))[name@],
            decreases j,
        {
            if j == 0 {
                proof {
                    assert(frame.entries@.take(0) =~= Seq::<(String, Value)>::empty());
                }
                return None;
            }
            j = j - 1;
            proof {
                assert(frame.entries@.take(j as int + 1).drop_last() =~= frame.entries@.take(
                    j as int,
                ));
                assert(frame.entries@.take(j as int + 1).last() == frame.entries@[j as int]);
            }
            if frame.entries[j].0.eq(name) {
                return Some(frame.entries[j].1.clone());
            }
        }
    }

    /// Looks `name` up along the scope chain starting at `scope`.
    pub fn get(&self, scope: usize, name: &str) -> (r: Result<Value, EvalError>)
        requires
            env_wf(self@),
            scope < self@.len(),
        ensures
            r == match env_lookup(self@, scope as int, name@) {
                Some(v) => Result::<Value, EvalError>::Ok(v),
                None => Result::<Value, EvalError>::Err(EvalError::UndefinedVariable),
            },
    {
        let owned: String = name.to_owned();
        let mut cur = scope;
        loop
            invariant
                env_wf(self@),
                cur < self@.len(),
                owned@ == name@,
                env_lookup(self@, scope as int, name@) == env_lookup(self@, cur as int, name@),
            decreases cur,
        {
            match self.frame_get(cur, &owned) {
                Some(v) => {
                    return Ok(v);
                },
                None => {
                    proof {
                        assert(frame_wf(self@, cur as int));
                    }
                    match self.frames[cur].parent {
                        Some(p) => {
                            cur = p;
                        },
                        None => {
                            return Err(EvalError::UndefinedVariable);
                        },
                    }
                },
            }
        }
    }
}

} // verus!
