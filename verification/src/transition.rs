//! Transitions: named edges between vertices with an optional trigger,
//! guard and effect.

use vstd::prelude::*;
use crate::action::OptBehavior;
use crate::action::OptGuard;

verus! {

/// A transition between two vertices. The name must be unique both among the
/// outgoing transitions of the source and among the incoming transitions of
/// the target.
#[derive(Debug)]
pub struct Transition<G, B> {
    pub name: String,
    /// Identifier of this transition in the element arena.
    pub dbid: usize,
    /// Identifier of the declared event type triggering this transition.
    pub trigger: Option<usize>,
    /// Identifier of the source vertex.
    pub source: usize,
    /// Identifier of the target vertex.
    pub target: usize,
    pub effect: OptBehavior<B>,
    pub guard: OptGuard<G>,
}

impl<G: Fn() -> bool, B: Fn()> Transition<G, B> {
    pub fn new(
        name: &str,
        dbid: usize,
        trigger: Option<usize>,
        source: usize,
        target: usize,
        effect: OptBehavior<B>,
        guard: OptGuard<G>,
    ) -> (t: Transition<G, B>)
        ensures
            t.name@ == name@,
            t.dbid == dbid,
            t.trigger == trigger,
            t.source == source,
            t.target == target,
            t.effect == effect,
            t.guard == guard,
    {
        Transition { name: name.to_owned(), dbid, trigger, source, target, effect, guard }
    }

    /// Whether the transition is currently enabled: true when no guard is
    /// attached, and the guard's verdict otherwise.
    pub fn check(&self) -> (r: bool)
        requires
            self.guard matches OptGuard::Guard(g) ==> call_requires(g.func, ()),
        ensures
            match self.guard {
                OptGuard::Absent => r == true,
                OptGuard::Guard(g) => call_ensures(g.func, (), r),
            },
    {
        match &self.guard {
            OptGuard::Absent => true,
            OptGuard::Guard(guard) => (guard.func)(),
        }
    }
}

} // verus!
