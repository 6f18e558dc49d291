use rust_uml_sm::Effect;
use rust_uml_sm::Guard;
use rust_uml_sm::OptEffect;
use rust_uml_sm::OptGuard;
use rust_uml_sm::StateMachine;
use rust_uml_sm::StateMachineError;
use rust_uml_sm::VertexType;

fn yes() -> bool {
    true
}

fn no() -> bool {
    false
}

fn nothing() {}

#[test]
fn test_containment_is_strict() {
    let mut sm: StateMachine<fn() -> bool, fn()> = StateMachine::new("sm1");
    let s1 = sm.add_state("s1").unwrap();
    let s2 = sm.add_substate("s2", s1).unwrap();
    let s3 = sm.add_substate("s3", s2).unwrap();
    // Irreflexivity on every element.
    assert_eq!(sm.is_contained_in(0, 0), false);
    assert_eq!(sm.is_contained_in(s1, s1), false);
    assert_eq!(sm.is_contained_in(s3, s3), false);
    // Transitivity: s3 in s2 and s2 in s1 gives s3 in s1.
    assert_eq!(sm.is_contained_in(s3, s2), true);
    assert_eq!(sm.is_contained_in(s2, s1), true);
    assert_eq!(sm.is_contained_in(s3, s1), true);
    // Asymmetry falls out of the strict order.
    assert_eq!(sm.is_contained_in(s1, s3), false);
    // Out-of-range identifiers are contained in nothing.
    assert_eq!(sm.is_contained_in(99, s1), false);
    assert_eq!(sm.is_contained_in(s1, 99), false);
}

#[test]
fn test_region_bootstrap() {
    let mut sm: StateMachine<fn() -> bool, fn()> = StateMachine::new("sm1");
    // A fresh machine has exactly one region, named "region_1".
    assert_eq!(sm.sm_regions(), vec![1]);
    assert_eq!(sm.name(1).unwrap(), "region_1");
    assert_eq!(sm.regions.len(), 1);
    assert_eq!(sm.regions[0].initial_state, 0);
    assert_eq!(sm.regions[0].active_state, 0);
    // The first vertex added to a region becomes both its default entry
    // vertex and its active vertex.
    let s1 = sm.add_state("s1").unwrap();
    assert_eq!(sm.regions[0].initial_state, s1);
    assert_eq!(sm.regions[0].active_state, s1);
    // Later vertices leave both untouched.
    let _s2 = sm.add_state("s2").unwrap();
    assert_eq!(sm.regions[0].initial_state, s1);
    assert_eq!(sm.regions[0].active_state, s1);
}

#[test]
fn test_duplicate_transition_names() {
    let mut sm: StateMachine<fn() -> bool, fn()> = StateMachine::new("sm1");
    let s1 = sm.add_state("s1").unwrap();
    let s2 = sm.add_state("s2").unwrap();
    let s3 = sm.add_state("s3").unwrap();
    let effect: OptEffect<fn()> = OptEffect::Absent;
    let guard: OptGuard<fn() -> bool> = OptGuard::Absent;
    let _t1 = sm.add_transition("t", None, s1, s2, effect, guard).unwrap();
    // A second transition named "t" out of the same source fails.
    let dup_out = sm.add_transition("t", None, s1, s3, effect, guard);
    assert!(matches!(dup_out, Err(StateMachineError::Duplicate(_))));
    // A second transition named "t" into the same target fails.
    let dup_in = sm.add_transition("t", None, s3, s2, effect, guard);
    assert!(matches!(dup_in, Err(StateMachineError::Duplicate(_))));
    // Distinct names between the same pair of vertices succeed.
    let _t2 = sm.add_transition("u", None, s1, s2, effect, guard).unwrap();
    let _t3 = sm.add_transition("v", None, s1, s2, effect, guard).unwrap();
}

#[test]
fn test_guard_checks() {
    let mut sm: StateMachine<fn() -> bool, fn()> = StateMachine::new("sm1");
    let s1 = sm.add_state("s1").unwrap();
    let s2 = sm.add_state("s2").unwrap();
    let effect: OptEffect<fn()> = OptEffect::Absent;
    let none_guard: OptGuard<fn() -> bool> = OptGuard::Absent;
    let t0 = sm.add_transition("t0", None, s1, s2, effect, none_guard).unwrap();
    let t1 = sm.add_transition("t1", None, s1, s2, effect, Guard::some(yes)).unwrap();
    let t2 = sm.add_transition("t2", None, s1, s2, effect, Guard::some(no)).unwrap();
    // A transition without a guard is always enabled.
    assert_eq!(sm.check_transition(t0).unwrap(), true);
    // A guarded transition reports its guard's verdict.
    assert_eq!(sm.check_transition(t1).unwrap(), true);
    assert_eq!(sm.check_transition(t2).unwrap(), false);
}

#[test]
fn test_active_configuration() {
    let mut sm: StateMachine<fn() -> bool, fn()> = StateMachine::new("sm1");
    let r1 = sm.add_sm_region("r1").unwrap();
    let r2 = sm.add_sm_region("r2").unwrap();
    let s1 = sm.add_substate("s1", r1).unwrap();
    let _s2 = sm.add_substate("s2", r1).unwrap();
    let sa = sm.add_substate("sa", r2).unwrap();
    // Each region's first vertex is active, so the configuration holds one
    // leaf per populated region, in region declaration order.
    assert_eq!(sm.active_states(0).unwrap(), vec![s1, sa]);
    // A composite state reports the active leaves inside its regions.
    let s3 = sm.add_substate("s3", s1).unwrap();
    assert_eq!(sm.active_states(0).unwrap(), vec![s3, sa]);
    assert_eq!(sm.active_states(s1).unwrap(), vec![s3]);
}

#[test]
fn test_transitions_enabled() {
    let mut sm: StateMachine<fn() -> bool, fn()> = StateMachine::new("sm1");
    let r1 = sm.add_sm_region("r1").unwrap();
    let s1 = sm.add_substate("s1", r1).unwrap();
    let s2 = sm.add_substate("s2", r1).unwrap();
    let effect: OptEffect<fn()> = OptEffect::Absent;
    let t1 = sm.add_transition("t1", None, s1, s2, effect, Guard::some(no)).unwrap();
    let t2 = sm.add_transition("t2", None, s1, s2, effect, Guard::some(yes)).unwrap();
    let t3 = sm.add_transition("t3", None, s1, s2, effect, OptGuard::Absent).unwrap();
    // s1 is the active vertex of r1; only its transitions whose guard
    // passes are enabled, in insertion order.
    assert_eq!(sm.transitions_enabled(0).unwrap(), vec![t2, t3]);
    assert_eq!(sm.transitions_enabled(s1).unwrap(), vec![t2, t3]);
    // s2 is not active and a query below it sees only its own outgoing set.
    assert_eq!(sm.transitions_enabled(s2).unwrap(), vec![]);
    let _ = t1;
}

#[test]
fn test_transitions_query() {
    let mut sm: StateMachine<fn() -> bool, fn()> = StateMachine::new("sm1");
    let r1 = sm.add_sm_region("r1").unwrap();
    let s1 = sm.add_substate("s1", r1).unwrap();
    let s2 = sm.add_substate("s2", r1).unwrap();
    let effect: OptEffect<fn()> = OptEffect::Absent;
    let guard: OptGuard<fn() -> bool> = OptGuard::Absent;
    let t1 = sm.add_transition("t1", None, s1, s2, effect, guard).unwrap();
    let t2 = sm.add_transition("t2", None, s2, s1, effect, guard).unwrap();
    // Incoming transitions of a state.
    assert_eq!(sm.transitions(s2).unwrap(), vec![t1]);
    assert_eq!(sm.transitions(s1).unwrap(), vec![t2]);
    // Transitions whose target lies directly in a region.
    assert_eq!(sm.transitions(r1).unwrap(), vec![t1, t2]);
    // Every transition of the model.
    assert_eq!(sm.transitions(0).unwrap(), vec![t1, t2]);
}

#[test]
fn test_event_types() {
    let mut sm: StateMachine<fn() -> bool, fn()> = StateMachine::new("sm1");
    let ev1 = sm.add_event_type("ev1").unwrap();
    let ev2 = sm.add_event_type("ev2").unwrap();
    assert_ne!(ev1, ev2);
    assert_eq!(sm.name(ev1).unwrap(), "ev1");
    let dup = sm.add_event_type("ev1");
    assert!(matches!(dup, Err(StateMachineError::Duplicate(_))));
}

#[test]
fn test_initial_transition_reuse() {
    let mut sm: StateMachine<fn() -> bool, fn()> = StateMachine::new("sm1");
    let r1 = sm.add_sm_region("r1").unwrap();
    let s1 = sm.add_substate("s1", r1).unwrap();
    let effect: OptEffect<fn()> = OptEffect::Absent;
    // The region has no initial pseudostate yet.
    assert!(matches!(
        sm.initial_state(r1),
        Err(StateMachineError::NoInitialState(_))
    ));
    sm.initial_transition(r1, s1, effect).unwrap();
    // The pseudostate now exists and is found by the query.
    let iv = sm.initial_state(r1).unwrap().unwrap();
    assert_eq!(sm.name(iv).unwrap(), "initial");
    // A second default entry for the same region is refused.
    let again = sm.initial_transition(r1, s1, effect);
    assert!(matches!(again, Err(StateMachineError::Duplicate(_))));
}

#[test]
fn test_reserved_initial_name() {
    let mut sm: StateMachine<fn() -> bool, fn()> = StateMachine::new("sm1");
    let r1 = sm.add_sm_region("r1").unwrap();
    // The reserved name creates an initial pseudostate, not a state.
    let iv = sm.add_substate("initial", r1).unwrap();
    assert_eq!(sm.is_state(iv).unwrap(), false);
    assert_eq!(sm.initial_state(r1).unwrap(), Some(iv));
    // An ordinary vertex named "initial" can still be made explicitly.
    let mut sm2: StateMachine<fn() -> bool, fn()> = StateMachine::new("sm2");
    let r = sm2.add_sm_region("r").unwrap();
    let v = sm2.add_vertex("initial", r, VertexType::State).unwrap();
    assert_eq!(sm2.is_state(v).unwrap(), true);
}

#[test]
fn test_error_variants() {
    let mut sm: StateMachine<fn() -> bool, fn()> = StateMachine::new("sm1");
    let r1 = sm.add_sm_region("r1").unwrap();
    let s1 = sm.add_substate("s1", r1).unwrap();
    let ev = sm.add_event_type("ev").unwrap();
    // Out-of-range identifier.
    assert!(matches!(
        sm.fullname(99),
        Err(StateMachineError::InvalidDbId(99))
    ));
    // A region cannot own a region.
    assert!(matches!(
        sm.add_region("x", r1),
        Err(StateMachineError::InvalidState(_))
    ));
    // A vertex must go into a region.
    assert!(matches!(
        sm.add_vertex("x", s1, VertexType::State),
        Err(StateMachineError::InvalidRegion(_))
    ));
    // A substate cannot hang under an event type.
    assert!(matches!(
        sm.add_substate("x", ev),
        Err(StateMachineError::CannotAddState(_))
    ));
    // Duplicate state name in the same region.
    assert!(matches!(
        sm.add_substate("s1", r1),
        Err(StateMachineError::Duplicate(_))
    ));
    // An orthogonal state is an ambiguous substate target.
    let s2 = sm.add_substate("s2", r1).unwrap();
    let _ = sm.add_region("ra", s2).unwrap();
    let _ = sm.add_region("rb", s2).unwrap();
    assert!(matches!(
        sm.add_substate("x", s2),
        Err(StateMachineError::ContainsMultipleRegions(_))
    ));
    // The state machine element has no containing region.
    assert!(matches!(
        sm.lca(0, s1),
        Err(StateMachineError::NoCommonAncestor(_, _))
    ));
    // Event types take part in no vertex queries.
    assert!(matches!(
        sm.transitions(ev),
        Err(StateMachineError::InvalidVertex(_))
    ));
}

#[test]
fn test_classification_consistency() {
    let mut sm: StateMachine<fn() -> bool, fn()> = StateMachine::new("sm1");
    let r1 = sm.add_sm_region("r1").unwrap();
    let s1 = sm.add_substate("s1", r1).unwrap();
    // Zero regions: simple, not composite, not orthogonal.
    assert_eq!(sm.is_simple(s1).unwrap(), true);
    assert_eq!(sm.is_composite(s1).unwrap(), false);
    assert_eq!(sm.is_orthogonal(s1).unwrap(), false);
    // One region: composite, not simple, not orthogonal.
    let _ = sm.add_region("ra", s1).unwrap();
    assert_eq!(sm.is_simple(s1).unwrap(), false);
    assert_eq!(sm.is_composite(s1).unwrap(), true);
    assert_eq!(sm.is_orthogonal(s1).unwrap(), false);
    // Two regions: composite and orthogonal, never simple.
    let _ = sm.add_region("rb", s1).unwrap();
    assert_eq!(sm.is_simple(s1).unwrap(), false);
    assert_eq!(sm.is_composite(s1).unwrap(), true);
    assert_eq!(sm.is_orthogonal(s1).unwrap(), true);
}

#[test]
fn test_behaviors_run() {
    let mut sm: StateMachine<fn() -> bool, fn()> = StateMachine::new("sm1");
    let s1 = sm.add_state("s1").unwrap();
    sm.set_entry(s1, Effect::new(nothing)).unwrap();
    sm.set_exit(s1, Effect::new(nothing)).unwrap();
    sm.perform_entry(s1).unwrap();
    sm.perform_exit(s1).unwrap();
    sm.perform_do(s1).unwrap();
    // Behaviors on a missing state are rejected, not run.
    assert!(matches!(
        sm.perform_entry(99),
        Err(StateMachineError::InvalidDbId(99))
    ));
    assert!(matches!(
        sm.perform_entry(1),
        Err(StateMachineError::InvalidState(1))
    ));
}

#[test]
fn test_owning_region_of_transition() {
    let mut sm: StateMachine<fn() -> bool, fn()> = StateMachine::new("sm1");
    let r1 = sm.add_sm_region("r1").unwrap();
    let s1 = sm.add_substate("s1", r1).unwrap();
    let s2 = sm.add_substate("s2", r1).unwrap();
    let effect: OptEffect<fn()> = OptEffect::Absent;
    let guard: OptGuard<fn() -> bool> = OptGuard::Absent;
    let t1 = sm.add_transition("t1", None, s1, s2, effect, guard).unwrap();
    // A transition lives in the region containing its source.
    assert_eq!(sm.owning_region(t1).unwrap(), r1);
    assert_eq!(sm.owning_region(r1).unwrap(), r1);
    assert!(matches!(
        sm.owning_region(0),
        Err(StateMachineError::InvalidVertex(0))
    ));
}

#[test]
fn test_states_in_region() {
    let mut sm: StateMachine<fn() -> bool, fn()> = StateMachine::new("sm1");
    let r1 = sm.add_sm_region("r1").unwrap();
    let s1 = sm.add_substate("s1", r1).unwrap();
    let s2 = sm.add_substate("s2", r1).unwrap();
    let iv = sm.add_substate("initial", r1).unwrap();
    // Pseudostates are not listed among a region's states.
    assert_eq!(sm.states(r1).unwrap(), vec![s1, s2]);
    assert!(matches!(
        sm.states(s1),
        Err(StateMachineError::InvalidRegion(_))
    ));
    let _ = iv;
}
