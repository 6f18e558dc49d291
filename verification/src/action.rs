//! Guards and behaviors: named zero-argument callables attached to
//! transitions and states, with explicit two-variant option types so that
//! "no guard means always enabled" and "no behavior means no-op" stay visible
//! at the type level.

use vstd::prelude::*;

verus! {

/// A side-effect-free predicate gating whether a transition may fire.
#[derive(Debug, Clone, Copy)]
pub struct Guard<G> {
    pub func: G,
    pub name: &'static str,
}

impl<G: Fn() -> bool> Guard<G> {
    pub fn new(func: G) -> (g: Guard<G>)
        ensures
            g.func == func,
    {
        Guard { func, name: "ggg" }
    }

    /// Wrap a predicate directly as a present optional guard.
    pub fn some(func: G) -> (g: OptGuard<G>)
        ensures
            g matches OptGuard::Guard(gg) && gg.func == func,
    {
        OptGuard::Guard(Guard::new(func))
    }
}

/// A guard that may be absent; an absent guard always lets the transition
/// fire.
#[derive(Debug, Clone, Copy)]
pub enum OptGuard<G> {
    Guard(Guard<G>),
    Absent,
}

/// An action invoked on state entry, state exit, while a state is active, or
/// as the effect of a transition.
#[derive(Debug, Clone, Copy)]
pub struct Behavior<B> {
    pub func: B,
    pub name: &'static str,
}

impl<B: Fn()> Behavior<B> {
    pub fn new(func: B) -> (b: Behavior<B>)
        ensures
            b.func == func,
    {
        Behavior { func, name: "xxx" }
    }

    /// Wrap an action directly as a present optional behavior.
    pub fn some(func: B) -> (b: OptBehavior<B>)
        ensures
            b matches OptBehavior::Behavior(bb) && bb.func == func,
    {
        OptBehavior::Behavior(Behavior::new(func))
    }
}

/// A behavior that may be absent; an absent behavior is a no-op.
#[derive(Debug, Clone, Copy)]
pub enum OptBehavior<B> {
    Behavior(Behavior<B>),
    Absent,
}

/// Behavior attached to state entry.
pub type Entry<B> = Behavior<B>;

/// Behavior attached to state exit.
pub type Exit<B> = Behavior<B>;

/// Behavior attached to a transition.
pub type Effect<B> = Behavior<B>;

/// Optional behavior attached to a transition.
pub type OptEffect<B> = OptBehavior<B>;

} // verus!
