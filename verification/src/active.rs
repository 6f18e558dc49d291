//! The execution-side primitives: guard checking, entry/exit/do-activity
//! invocation, and the recursive computation of the active leaf
//! configuration and of the currently enabled transitions.

use vstd::prelude::*;
use vstd::seq_lib::*;
use crate::action::OptGuard;
use crate::element::ElementType;
use crate::element::VertexType;
use crate::errors::StateMachineError;
use crate::errors::StateMachineResult;
use crate::machine::Db;

verus! {

impl<G: Fn() -> bool, B: Fn()> Db<G, B> {
    /// Evaluate the guard of a transition: true when no guard is attached,
    /// the guard's verdict otherwise. Never changes the model.
    pub fn check_transition(&mut self, transition_dbid: usize) -> (r: StateMachineResult<bool>)
        requires
            old(self).wf(),
        ensures
            *final(self) == *old(self),
            old(self).is_transition_id(transition_dbid as int) ==> (r matches Ok(b) && match old(
                self,
            ).transition_of(transition_dbid as int).guard {
                OptGuard::Absent => b == true,
                OptGuard::Guard(g) => call_ensures(g.func, (), b),
            }),
            !old(self).valid_id(transition_dbid as int) ==> r == Err::<bool, _>(
                StateMachineError::InvalidDbId(transition_dbid),
            ),
            old(self).valid_id(transition_dbid as int) && !old(self).is_transition_id(
                transition_dbid as int,
            ) ==> r == Err::<bool, _>(StateMachineError::InvalidVertex(transition_dbid)),
    {
        let t_idx = self.transition(transition_dbid)?;
        proof {
            assert(self.element_ok(transition_dbid as int));
            assert(self.transition_entry_ok(t_idx as int));
        }
        Ok(self.transitions[t_idx].check())
    }

    /// Run the entry behavior of a state, if one is attached.
    pub fn perform_entry(&mut self, state_dbid: usize) -> (r: StateMachineResult<()>)
        requires
            old(self).wf(),
        ensures
            *final(self) == *old(self),
            old(self).is_state_id(state_dbid as int) ==> r is Ok,
            old(self).is_state_id(state_dbid as int) ==> (old(self).state_of(
                state_dbid as int,
            ).entry matches Some(b) ==> call_ensures(b.func, (), ())),
            !old(self).valid_id(state_dbid as int) ==> r == Err::<(), _>(
                StateMachineError::InvalidDbId(state_dbid),
            ),
            old(self).valid_id(state_dbid as int) && !old(self).is_state_id(state_dbid as int)
                ==> r == Err::<(), _>(StateMachineError::InvalidState(state_dbid)),
    {
        let s_idx = self.state(state_dbid)?;
        proof {
            assert(self.element_ok(state_dbid as int));
            assert(self.vertex_entry_ok(self.idx_of(state_dbid as int)));
            assert(self.state_entry_ok(s_idx as int));
        }
        Ok(self.states[s_idx].perform_entry())
    }

    /// Run the exit behavior of a state, if one is attached.
    pub fn perform_exit(&mut self, state_dbid: usize) -> (r: StateMachineResult<()>)
        requires
            old(self).wf(),
        ensures
            *final(self) == *old(self),
            old(self).is_state_id(state_dbid as int) ==> r is Ok,
            old(self).is_state_id(state_dbid as int) ==> (old(self).state_of(
                state_dbid as int,
            ).exit matches Some(b) ==> call_ensures(b.func, (), ())),
            !old(self).valid_id(state_dbid as int) ==> r == Err::<(), _>(
                StateMachineError::InvalidDbId(state_dbid),
            ),
            old(self).valid_id(state_dbid as int) && !old(self).is_state_id(state_dbid as int)
                ==> r == Err::<(), _>(StateMachineError::InvalidState(state_dbid)),
    {
        let s_idx = self.state(state_dbid)?;
        proof {
            assert(self.element_ok(state_dbid as int));
            assert(self.vertex_entry_ok(self.idx_of(state_dbid as int)));
            assert(self.state_entry_ok(s_idx as int));
        }
        Ok(self.states[s_idx].perform_exit())
    }

    /// Run the do-activity behavior of a state, if one is attached.
    pub fn perform_do(&mut self, state_dbid: usize) -> (r: StateMachineResult<()>)
        requires
            old(self).wf(),
        ensures
            *final(self) == *old(self),
            old(self).is_state_id(state_dbid as int) ==> r is Ok,
            old(self).is_state_id(state_dbid as int) ==> (old(self).state_of(
                state_dbid as int,
            ).do_while matches Some(b) ==> call_ensures(b.func, (), ())),
            !old(self).valid_id(state_dbid as int) ==> r == Err::<(), _>(
                StateMachineError::InvalidDbId(state_dbid),
            ),
            old(self).valid_id(state_dbid as int) && !old(self).is_state_id(state_dbid as int)
                ==> r == Err::<(), _>(StateMachineError::InvalidState(state_dbid)),
    {
        let s_idx = self.state(state_dbid)?;
        proof {
            assert(self.element_ok(state_dbid as int));
            assert(self.vertex_entry_ok(self.idx_of(state_dbid as int)));
            assert(self.state_entry_ok(s_idx as int));
        }
        Ok(self.states[s_idx].perform_do())
    }

    /// The children a traversal from element `d` descends into all come
    /// later in creation order; this bounds the recursions below.
    pub proof fn lemma_children_above(self, d: int)
        requires
            self.wf(),
            0 <= d < self.len(),
        ensures
            self.kind_of(d) == ElementType::Vertex(VertexType::State) ==> forall|k: int|
                0 <= k < self.state_regions(d).len() ==> d < #[trigger] self.state_regions(
                    d,
                )[k] < self.len(),
            self.kind_of(d) == ElementType::Region && self.region_of(d).active_state != 0 ==> d
                < self.region_of(d).active_state < self.len(),
            self.kind_of(d) == ElementType::StateMachine ==> forall|k: int|
                0 <= k < self.state_machine.regions@.len() ==> d
                    < #[trigger] self.state_machine.regions@[k] < self.len(),
    {
        assert(self.element_ok(d));
        if self.kind_of(d) == ElementType::Vertex(VertexType::State) {
            assert(self.vertex_entry_ok(self.idx_of(d)));
            let j = self.vertex_of(d).idx as int;
            assert(self.state_entry_ok(j));
            assert forall|k: int|
                0 <= k < self.state_regions(d).len() implies d < #[trigger] self.state_regions(
                d,
            )[k] < self.len() by {
                assert(self.region_of_state(self.states@[j].regions@[k] as int, d));
                assert(0 <= self.parent_of(self.state_regions(d)[k] as int) < self.state_regions(
                    d,
                )[k] as int);
            }
        }
        if self.kind_of(d) == ElementType::Region {
            assert(self.region_entry_ok(self.idx_of(d)));
            let a = self.region_of(d).active_state;
            if a != 0 {
                assert(self.vertex_in_region(a as int, d));
                assert(0 <= self.parent_of(a as int) < a as int);
            }
        }
        if self.kind_of(d) == ElementType::StateMachine {
            assert forall|k: int|
                0 <= k < self.state_machine.regions@.len() implies d
                < #[trigger] self.state_machine.regions@[k] < self.len() by {
                assert(self.top_region_ok(self.state_machine.regions@[k] as int));
            }
        }
    }

    /// The active leaf configuration below element `d`: a simple state or a
    /// pseudostate is itself active; a composite state collects its regions
    /// in declaration order; a region descends into its active vertex (an
    /// empty region contributes nothing); the state machine collects its
    /// top-level regions.
    pub open spec fn active_states_of(self, d: int) -> Seq<usize>
        decreases self.len() - d, 1int, 0int,
        when self.wf() && 0 <= d < self.len()
    {
        match self.kind_of(d) {
            ElementType::Vertex(VertexType::State) => {
                if self.state_regions(d).len() == 0 {
                    seq![self.elements@[d].dbid]
                } else {
                    proof {
                        self.lemma_children_above(d);
                    }
                    self.active_states_list(d, self.state_regions(d))
                }
            },
            ElementType::Vertex(_) => seq![self.elements@[d].dbid],
            ElementType::Region => {
                let a = self.region_of(d).active_state;
                if a != 0 {
                    proof {
                        self.lemma_children_above(d);
                    }
                    self.active_states_of(a as int)
                } else {
                    Seq::empty()
                }
            },
            ElementType::StateMachine => {
                proof {
                    self.lemma_children_above(d);
                }
                self.active_states_list(d, self.state_machine.regions@)
            },
            _ => Seq::empty(),
        }
    }

    /// The concatenated active configurations of the listed children of
    /// element `owner`, in list order.
    pub open spec fn active_states_list(self, owner: int, rs: Seq<usize>) -> Seq<usize>
        decreases self.len() - owner, 0int, rs.len(),
        when self.wf() && 0 <= owner < self.len() && (forall|k: int|
            0 <= k < rs.len() ==> owner < #[trigger] rs[k] < self.len())
    {
        if rs.len() == 0 {
            Seq::empty()
        } else {
            self.active_states_list(owner, rs.drop_last()) + self.active_states_of(
                rs.last() as int,
            )
        }
    }

    /// Whether `x` is a leaf of the containment tree: a pseudostate or a
    /// state owning no region.
    pub open spec fn is_leaf(self, x: int) -> bool {
        &&& self.is_vertex_id(x)
        &&& (self.is_state_id(x) ==> self.state_regions(x).len() == 0)
    }

    /// Every member of an active configuration is a leaf: the traversal
    /// descends through composite states and regions and only ever reports
    /// simple states and pseudostates.
    pub proof fn lemma_active_states_are_leaves(self, d: int)
        requires
            self.wf(),
            0 <= d < self.len(),
        ensures
            forall|i: int|
                0 <= i < self.active_states_of(d).len() ==> self.is_leaf(
                    #[trigger] self.active_states_of(d)[i] as int,
                ),
        decreases self.len() - d, 1int, 0int,
    {
        self.lemma_children_above(d);
        assert(self.element_ok(d));
        match self.kind_of(d) {
            ElementType::Vertex(VertexType::State) => {
                if self.state_regions(d).len() == 0 {
                    assert(self.is_leaf(d));
                    assert(self.active_states_of(d)[0] as int == d);
                } else {
                    self.lemma_active_states_list_are_leaves(d, self.state_regions(d));
                    assert(self.active_states_of(d) == self.active_states_list(
                        d,
                        self.state_regions(d),
                    ));
                }
            },
            ElementType::Vertex(_) => {
                assert(self.is_leaf(d));
                assert(self.active_states_of(d)[0] as int == d);
            },
            ElementType::Region => {
                let a = self.region_of(d).active_state;
                if a != 0 {
                    self.lemma_active_states_are_leaves(a as int);
                    assert(self.active_states_of(d) == self.active_states_of(a as int));
                }
            },
            ElementType::StateMachine => {
                self.lemma_active_states_list_are_leaves(d, self.state_machine.regions@);
                assert(self.active_states_of(d) == self.active_states_list(
                    d,
                    self.state_machine.regions@,
                ));
            },
            _ => {},
        }
    }

    /// The list form of `lemma_active_states_are_leaves`, over the children
    /// of one element.
    pub proof fn lemma_active_states_list_are_leaves(self, owner: int, rs: Seq<usize>)
        requires
            self.wf(),
            0 <= owner < self.len(),
            forall|k: int| 0 <= k < rs.len() ==> owner < #[trigger] rs[k] < self.len(),
        ensures
            forall|i: int|
                0 <= i < self.active_states_list(owner, rs).len() ==> self.is_leaf(
                    #[trigger] self.active_states_list(owner, rs)[i] as int,
                ),
        decreases self.len() - owner, 0int, rs.len(),
    {
        if rs.len() > 0 {
            self.lemma_active_states_list_are_leaves(owner, rs.drop_last());
            self.lemma_active_states_are_leaves(rs.last() as int);
            let prefix = self.active_states_list(owner, rs.drop_last());
            let tailpart = self.active_states_of(rs.last() as int);
            assert forall|i: int|
                0 <= i < self.active_states_list(owner, rs).len() implies self.is_leaf(
                self.active_states_list(owner, rs)[i] as int,
            ) by {
                if i < prefix.len() {
                    assert(self.active_states_list(owner, rs)[i] == prefix[i]);
                } else {
                    assert(self.active_states_list(owner, rs)[i] == tailpart[i - prefix.len()]);
                }
            }
        }
    }

    /// The transitions a traversal from element `d` examines for
    /// enablement, in evaluation order: for a state, those of its regions'
    /// active configurations first, then its own outgoing transitions in
    /// insertion order; for a region, those below its active vertex; for the
    /// state machine, those below its top-level regions.
    pub open spec fn enabled_candidates_of(self, d: int) -> Seq<usize>
        decreases self.len() - d, 1int, 0int,
        when self.wf() && 0 <= d < self.len()
    {
        match self.kind_of(d) {
            ElementType::Vertex(VertexType::State) => {
                proof {
                    self.lemma_children_above(d);
                }
                self.enabled_candidates_list(d, self.state_regions(d)) + self.vertex_of(d).outgoing@
            },
            ElementType::Vertex(_) => self.vertex_of(d).outgoing@,
            ElementType::Region => {
                let a = self.region_of(d).active_state;
                if a != 0 {
                    proof {
                        self.lemma_children_above(d);
                    }
                    self.enabled_candidates_of(a as int)
                } else {
                    Seq::empty()
                }
            },
            ElementType::StateMachine => {
                proof {
                    self.lemma_children_above(d);
                }
                self.enabled_candidates_list(d, self.state_machine.regions@)
            },
            _ => Seq::empty(),
        }
    }

    /// The concatenated transition candidates of the listed children of
    /// element `owner`, in list order.
    pub open spec fn enabled_candidates_list(self, owner: int, rs: Seq<usize>) -> Seq<usize>
        decreases self.len() - owner, 0int, rs.len(),
        when self.wf() && 0 <= owner < self.len() && (forall|k: int|
            0 <= k < rs.len() ==> owner < #[trigger] rs[k] < self.len())
    {
        if rs.len() == 0 {
            Seq::empty()
        } else {
            self.enabled_candidates_list(owner, rs.drop_last()) + self.enabled_candidates_of(
                rs.last() as int,
            )
        }
    }

    /// What `transitions_enabled` returns, exactly: one guard verdict per
    /// candidate, in evaluation order — forced true for a candidate without
    /// a guard, and the guard's own answer otherwise — and the result is
    /// precisely the candidates whose verdict is true, in that order.
    pub open spec fn enabled_exact(self, cand: Seq<usize>, picks: Seq<bool>, v: Seq<usize>) -> bool {
        &&& picks.len() == cand.len()
        &&& forall|j: int|
            #![trigger cand[j]]
            0 <= j < cand.len() ==> match self.transition_of(cand[j] as int).guard {
                OptGuard::Absent => picks[j] == true,
                OptGuard::Guard(g) => call_ensures(g.func, (), picks[j]),
            }
        &&& v == picked_ids(cand, picks)
    }

    /// What `transitions_enabled` guarantees about its result: some verdict
    /// sequence over the candidate list, one entry per candidate in
    /// evaluation order, relates the candidates to exactly this result.
    pub open spec fn enabled_result_exact(self, d: int, v: Seq<usize>) -> bool {
        exists|picks: Seq<bool>|
            self.enabled_exact(self.enabled_candidates_of(d), picks, v)
    }

    /// The full active leaf configuration below an element, in depth-first,
    /// declaration order. Transitions and event types have no active
    /// configuration.
    #[verifier::rlimit(50)]
    pub fn active_states(&self, dbid: usize) -> (r: StateMachineResult<Vec<usize>>)
        requires
            self.wf(),
        ensures
            !self.valid_id(dbid as int) ==> r == Err::<Vec<usize>, _>(
                StateMachineError::InvalidDbId(dbid),
            ),
            self.valid_id(dbid as int) && (self.kind_of(dbid as int) == ElementType::Transition
                || self.kind_of(dbid as int) == ElementType::EventType) ==> r == Err::<
                Vec<usize>,
                _,
            >(StateMachineError::InvalidVertex(dbid)),
            self.valid_id(dbid as int) && self.kind_of(dbid as int) != ElementType::Transition
                && self.kind_of(dbid as int) != ElementType::EventType ==> (r matches Ok(v) && v@
                == self.active_states_of(dbid as int)),
        decreases self.elements@.len() - dbid,
    {
        let ele = self.element(dbid)?;
        proof {
            assert(self.element_ok(dbid as int));
            self.lemma_children_above(dbid as int);
        }
        let mut active: Vec<usize> = Vec::new();
        match ele.element_type {
            ElementType::Vertex(VertexType::State) => {
                proof {
                    assert(self.vertex_entry_ok(self.idx_of(dbid as int)));
                    assert(self.state_entry_ok(self.vertex_of(dbid as int).idx as int));
                }
                let s_idx = self.vertices[ele.idx].idx;
                if self.states[s_idx].is_simple() {
                    active.push(dbid);
                    proof {
                        assert(active@ =~= seq![self.elements@[dbid as int].dbid]);
                    }
                } else {
                    let ghost rs = self.state_regions(dbid as int);
                    let mut k: usize = 0;
                    while k < self.states[s_idx].regions.len()
                        invariant
                            self.wf(),
                            self.is_state_id(dbid as int),
                            s_idx as int == self.vertex_of(dbid as int).idx as int,
                            (s_idx as int) < self.states@.len(),
                            rs == self.state_regions(dbid as int),
                            rs.len() > 0,
                            k <= rs.len(),
                            forall|j: int|
                                0 <= j < rs.len() ==> (dbid as int) < #[trigger] rs[j]
                                    < self.len(),
                            active@ == self.active_states_list(dbid as int, rs.take(k as int)),
                        decreases rs.len() - k,
                    {
                        let r = self.states[s_idx].regions[k];
                        proof {
                            assert(rs[k as int] == r);
                            assert(self.element_ok(dbid as int));
                            assert(self.vertex_entry_ok(self.idx_of(dbid as int)));
                            assert(self.state_entry_ok(s_idx as int));
                            assert(self.region_of_state(rs[k as int] as int, dbid as int));
                            assert(self.element_ok(r as int));
                            assert(rs.take(k + 1 as int).drop_last() =~= rs.take(k as int));
                        }
                        let mut sub = match self.active_states(r) {
                            Ok(v) => v,
                            Err(_) => {
                                proof {
                                    assert(false);
                                }
                                vstd::pervasive::unreached()
                            },
                        };
                        active.append(&mut sub);
                        k += 1;
                    }
                    proof {
                        assert(rs.take(rs.len() as int) =~= rs);
                    }
                }
            },
            ElementType::Vertex(_) => {
                active.push(dbid);
                proof {
                    assert(active@ =~= seq![self.elements@[dbid as int].dbid]);
                }
            },
            ElementType::Region => {
                proof {
                    assert(self.region_entry_ok(self.idx_of(dbid as int)));
                }
                let r_idx = self.elements[dbid].idx;
                let a = self.regions[r_idx].active_state;
                if a != 0 {
                    proof {
                        assert(self.vertex_in_region(a as int, dbid as int));
                        assert(self.element_ok(a as int));
                    }
                    let mut sub = match self.active_states(a) {
                        Ok(v) => v,
                        Err(_) => {
                            proof {
                                assert(false);
                            }
                            vstd::pervasive::unreached()
                        },
                    };
                    active.append(&mut sub);
                    proof {
                        assert(active@ =~= self.active_states_of(a as int));
                    }
                }
            },
            ElementType::StateMachine => {
                let ghost rs = self.state_machine.regions@;
                let mut k: usize = 0;
                while k < self.state_machine.regions.len()
                    invariant
                        self.wf(),
                        self.valid_id(dbid as int),
                        self.kind_of(dbid as int) == ElementType::StateMachine,
                        rs == self.state_machine.regions@,
                        k <= rs.len(),
                        forall|j: int|
                            0 <= j < rs.len() ==> (dbid as int) < #[trigger] rs[j] < self.len(),
                        active@ == self.active_states_list(dbid as int, rs.take(k as int)),
                    decreases rs.len() - k,
                {
                    let r = self.state_machine.regions[k];
                    proof {
                        assert(rs[k as int] == r);
                        assert(self.top_region_ok(rs[k as int] as int));
                        assert(self.element_ok(r as int));
                        assert(rs.take(k + 1 as int).drop_last() =~= rs.take(k as int));
                    }
                    let mut sub = match self.active_states(r) {
                        Ok(v) => v,
                        Err(_) => {
                            proof {
                                assert(false);
                            }
                            vstd::pervasive::unreached()
                        },
                    };
                    active.append(&mut sub);
                    k += 1;
                }
                proof {
                    assert(rs.take(rs.len() as int) =~= rs);
                }
            },
            _ => {
                return Err(StateMachineError::InvalidVertex(dbid));
            },
        }
        Ok(active)
    }

    /// Every enablement candidate is a transition of the model.
    pub proof fn lemma_candidates_are_transitions(self, d: int)
        requires
            self.wf(),
            0 <= d < self.len(),
        ensures
            forall|j: int|
                0 <= j < self.enabled_candidates_of(d).len() ==> self.is_transition_id(
                    #[trigger] self.enabled_candidates_of(d)[j] as int,
                ),
        decreases self.len() - d, 1int, 0int,
    {
        self.lemma_children_above(d);
        assert(self.element_ok(d));
        match self.kind_of(d) {
            ElementType::Vertex(VertexType::State) => {
                self.lemma_candidates_list_are_transitions(d, self.state_regions(d));
                assert(self.vertex_entry_ok(self.idx_of(d)));
                let prefix = self.enabled_candidates_list(d, self.state_regions(d));
                let og = self.vertex_of(d).outgoing@;
                assert(self.enabled_candidates_of(d) == prefix + og);
                assert forall|j: int|
                    0 <= j < self.enabled_candidates_of(d).len() implies self.is_transition_id(
                    self.enabled_candidates_of(d)[j] as int,
                ) by {
                    if j < prefix.len() {
                        assert(self.enabled_candidates_of(d)[j] == prefix[j]);
                    } else {
                        assert(self.enabled_candidates_of(d)[j] == og[j - prefix.len()]);
                    }
                }
            },
            ElementType::Vertex(_) => {
                assert(self.vertex_entry_ok(self.idx_of(d)));
                assert(self.enabled_candidates_of(d) == self.vertex_of(d).outgoing@);
            },
            ElementType::Region => {
                let a = self.region_of(d).active_state;
                if a != 0 {
                    self.lemma_candidates_are_transitions(a as int);
                    assert(self.enabled_candidates_of(d) == self.enabled_candidates_of(a as int));
                }
            },
            ElementType::StateMachine => {
                self.lemma_candidates_list_are_transitions(d, self.state_machine.regions@);
                assert(self.enabled_candidates_of(d) == self.enabled_candidates_list(
                    d,
                    self.state_machine.regions@,
                ));
            },
            _ => {},
        }
    }

    /// The list form of `lemma_candidates_are_transitions`, over the
    /// children of one element.
    pub proof fn lemma_candidates_list_are_transitions(self, owner: int, rs: Seq<usize>)
        requires
            self.wf(),
            0 <= owner < self.len(),
            forall|k: int| 0 <= k < rs.len() ==> owner < #[trigger] rs[k] < self.len(),
        ensures
            forall|j: int|
                0 <= j < self.enabled_candidates_list(owner, rs).len() ==> self.is_transition_id(
                    #[trigger] self.enabled_candidates_list(owner, rs)[j] as int,
                ),
        decreases self.len() - owner, 0int, rs.len(),
    {
        if rs.len() > 0 {
            self.lemma_candidates_list_are_transitions(owner, rs.drop_last());
            self.lemma_candidates_are_transitions(rs.last() as int);
            let prefix = self.enabled_candidates_list(owner, rs.drop_last());
            let tailpart = self.enabled_candidates_of(rs.last() as int);
            assert forall|j: int|
                0 <= j < self.enabled_candidates_list(owner, rs).len() implies self.is_transition_id(
                self.enabled_candidates_list(owner, rs)[j] as int,
            ) by {
                if j < prefix.len() {
                    assert(self.enabled_candidates_list(owner, rs)[j] == prefix[j]);
                } else {
                    assert(self.enabled_candidates_list(owner, rs)[j] == tailpart[j
                        - prefix.len()]);
                }
            }
        }
    }

    /// Concatenating candidate, verdict and result lists preserves the
    /// exact-enablement relation.
    proof fn lemma_enabled_exact_concat(
        self,
        c1: Seq<usize>,
        p1: Seq<bool>,
        v1: Seq<usize>,
        c2: Seq<usize>,
        p2: Seq<bool>,
        v2: Seq<usize>,
    )
        requires
            self.enabled_exact(c1, p1, v1),
            self.enabled_exact(c2, p2, v2),
        ensures
            self.enabled_exact(c1 + c2, p1 + p2, v1 + v2),
    {
        lemma_picked_ids_concat(c1, p1, c2, p2);
        assert forall|j: int|
            #![trigger (c1 + c2)[j]]
            0 <= j < (c1 + c2).len() implies match self.transition_of((c1 + c2)[j] as int).guard {
            OptGuard::Absent => (p1 + p2)[j] == true,
            OptGuard::Guard(g) => call_ensures(g.func, (), (p1 + p2)[j]),
        } by {
            if j < c1.len() {
                assert((c1 + c2)[j] == c1[j]);
                assert((p1 + p2)[j] == p1[j]);
            } else {
                assert((c1 + c2)[j] == c2[j - c1.len()]);
                assert((p1 + p2)[j] == p2[j - c1.len()]);
            }
        }
    }

    /// Every transition currently enabled below an element: for each vertex
    /// on the active configuration path, its outgoing transitions whose
    /// guard evaluates true, collected in evaluation order (each vertex's
    /// outgoing list scanned in insertion order, each guard evaluated once).
    /// Transitions and event types have no enabled set of their own.
    #[verifier::rlimit(60)]
    pub fn transitions_enabled(&self, dbid: usize) -> (r: StateMachineResult<Vec<usize>>)
        requires
            self.wf(),
        ensures
            !self.valid_id(dbid as int) ==> r == Err::<Vec<usize>, _>(
                StateMachineError::InvalidDbId(dbid),
            ),
            self.valid_id(dbid as int) && (self.kind_of(dbid as int) == ElementType::Transition
                || self.kind_of(dbid as int) == ElementType::EventType) ==> r == Err::<
                Vec<usize>,
                _,
            >(StateMachineError::InvalidVertex(dbid)),
            self.valid_id(dbid as int) && self.kind_of(dbid as int) != ElementType::Transition
                && self.kind_of(dbid as int) != ElementType::EventType ==> (r matches Ok(v)
                && self.enabled_result_exact(dbid as int, v@)),
        decreases self.elements@.len() - dbid,
    {
        let ele = self.element(dbid)?;
        proof {
            assert(self.element_ok(dbid as int));
            self.lemma_children_above(dbid as int);
        }
        let mut enabled: Vec<usize> = Vec::new();
        let ghost mut picks: Seq<bool> = Seq::empty();
        match ele.element_type {
            ElementType::Vertex(_) => {
                proof {
                    assert(self.vertex_entry_ok(self.idx_of(dbid as int)));
                }
                let v_idx = ele.idx;
                let ghost base: Seq<usize> = Seq::empty();
                let is_state = matches!(
                    self.elements[dbid].element_type,
                    ElementType::Vertex(VertexType::State)
                );
                if is_state {
                    proof {
                        assert(self.state_entry_ok(self.vertex_of(dbid as int).idx as int));
                    }
                    let s_idx = self.vertices[v_idx].idx;
                    let ghost rs = self.state_regions(dbid as int);
                    let mut k: usize = 0;
                    while k < self.states[s_idx].regions.len()
                        invariant
                            self.wf(),
                            self.is_state_id(dbid as int),
                            s_idx as int == self.vertex_of(dbid as int).idx as int,
                            (s_idx as int) < self.states@.len(),
                            rs == self.state_regions(dbid as int),
                            k <= rs.len(),
                            forall|j: int|
                                0 <= j < rs.len() ==> (dbid as int) < #[trigger] rs[j]
                                    < self.len(),
                            self.enabled_exact(
                                self.enabled_candidates_list(dbid as int, rs.take(k as int)),
                                picks,
                                enabled@,
                            ),
                        decreases rs.len() - k,
                    {
                        let r = self.states[s_idx].regions[k];
                        proof {
                            assert(rs[k as int] == r);
                            assert(self.element_ok(dbid as int));
                            assert(self.vertex_entry_ok(self.idx_of(dbid as int)));
                            assert(self.state_entry_ok(s_idx as int));
                            assert(self.region_of_state(rs[k as int] as int, dbid as int));
                            assert(self.element_ok(r as int));
                            assert(rs.take(k + 1 as int).drop_last() =~= rs.take(k as int));
                        }
                        let mut sub = match self.transitions_enabled(r) {
                            Ok(v) => v,
                            Err(_) => {
                                proof {
                                    assert(false);
                                }
                                vstd::pervasive::unreached()
                            },
                        };
                        proof {
                            let psub = choose|p: Seq<bool>|
                                self.enabled_exact(
                                    self.enabled_candidates_of(r as int),
                                    p,
                                    sub@,
                                );
                            self.lemma_enabled_exact_concat(
                                self.enabled_candidates_list(dbid as int, rs.take(k as int)),
                                picks,
                                enabled@,
                                self.enabled_candidates_of(r as int),
                                psub,
                                sub@,
                            );
                            picks = picks + psub;
                        }
                        enabled.append(&mut sub);
                        k += 1;
                    }
                    proof {
                        assert(rs.take(rs.len() as int) =~= rs);
                        base = self.enabled_candidates_list(dbid as int, rs);
                    }
                } else {
                    proof {
                        assert(self.enabled_exact(base, picks, enabled@));
                    }
                }
                let ghost og = self.vertex_of(dbid as int).outgoing@;
                let ghost bpicks = picks;
                let mut m: usize = 0;
                while m < self.vertices[v_idx].outgoing.len()
                    invariant
                        self.wf(),
                        self.is_vertex_id(dbid as int),
                        v_idx as int == self.idx_of(dbid as int),
                        (v_idx as int) < self.vertices@.len(),
                        og == self.vertex_of(dbid as int).outgoing@,
                        m <= og.len(),
                        self.enabled_exact(base + og.take(m as int), picks, enabled@),
                    decreases og.len() - m,
                {
                    proof {
                        assert(self.vertex_entry_ok(v_idx as int));
                        assert(self.is_transition_id(og[m as int] as int));
                        assert(self.element_ok(og[m as int] as int));
                        assert(self.transition_entry_ok(self.idx_of(og[m as int] as int)));
                    }
                    let t = self.vertices[v_idx].outgoing[m];
                    let t_idx = self.elements[t].idx;
                    let ghost c = base + og.take(m as int);
                    let ghost p = picks;
                    let hit = self.transitions[t_idx].check();
                    if hit {
                        enabled.push(t);
                    }
                    proof {
                        picks = picks.push(hit);
                        let cnew = base + og.take(m + 1 as int);
                        assert(c.push(t) =~= cnew);
                        assert(c.push(t).drop_last() =~= c);
                        assert(p.push(hit).drop_last() =~= p);
                        assert(picked_ids(cnew, picks) == (if hit {
                            picked_ids(c, p).push(t)
                        } else {
                            picked_ids(c, p)
                        }));
                        assert forall|j: int|
                            #![trigger cnew[j]]
                            0 <= j < cnew.len() implies match self.transition_of(
                            cnew[j] as int,
                        ).guard {
                            OptGuard::Absent => picks[j] == true,
                            OptGuard::Guard(g) => call_ensures(g.func, (), picks[j]),
                        } by {
                            if j < c.len() {
                                assert(cnew[j] == c[j]);
                                assert(picks[j] == p[j]);
                            } else {
                                assert(cnew[j] == t);
                                assert(picks[j] == hit);
                            }
                        }
                    }
                    m += 1;
                }
                proof {
                    assert(og.take(og.len() as int) =~= og);
                    if is_state {
                        assert(self.enabled_candidates_of(dbid as int) == base + og);
                    } else {
                        assert(Seq::<usize>::empty() + og =~= og);
                        assert(self.enabled_candidates_of(dbid as int) == og);
                    }
                    assert(self.enabled_exact(
                        self.enabled_candidates_of(dbid as int),
                        picks,
                        enabled@,
                    ));
                }
            },
            ElementType::Region => {
                proof {
                    assert(self.region_entry_ok(self.idx_of(dbid as int)));
                }
                let r_idx = self.elements[dbid].idx;
                let a = self.regions[r_idx].active_state;
                if a != 0 {
                    proof {
                        assert(self.vertex_in_region(a as int, dbid as int));
                        assert(self.element_ok(a as int));
                    }
                    let mut sub = match self.transitions_enabled(a) {
                        Ok(v) => v,
                        Err(_) => {
                            proof {
                                assert(false);
                            }
                            vstd::pervasive::unreached()
                        },
                    };
                    let ghost subs = sub@;
                    enabled.append(&mut sub);
                    proof {
                        assert(enabled@ =~= subs);
                        assert(self.enabled_candidates_of(dbid as int)
                            == self.enabled_candidates_of(a as int));
                        picks = choose|p: Seq<bool>|
                            self.enabled_exact(self.enabled_candidates_of(a as int), p, subs);
                        assert(self.enabled_exact(
                            self.enabled_candidates_of(dbid as int),
                            picks,
                            enabled@,
                        ));
                    }
                } else {
                    proof {
                        assert(self.enabled_candidates_of(dbid as int) == Seq::<usize>::empty());
                        assert(self.enabled_exact(
                            self.enabled_candidates_of(dbid as int),
                            picks,
                            enabled@,
                        ));
                    }
                }
            },
            ElementType::StateMachine => {
                let ghost rs = self.state_machine.regions@;
                let mut k: usize = 0;
                while k < self.state_machine.regions.len()
                    invariant
                        self.wf(),
                        self.valid_id(dbid as int),
                        self.kind_of(dbid as int) == ElementType::StateMachine,
                        rs == self.state_machine.regions@,
                        k <= rs.len(),
                        forall|j: int|
                            0 <= j < rs.len() ==> (dbid as int) < #[trigger] rs[j] < self.len(),
                        self.enabled_exact(
                            self.enabled_candidates_list(dbid as int, rs.take(k as int)),
                            picks,
                            enabled@,
                        ),
                    decreases rs.len() - k,
                {
                    let r = self.state_machine.regions[k];
                    proof {
                        assert(rs[k as int] == r);
                        assert(self.top_region_ok(rs[k as int] as int));
                        assert(self.element_ok(r as int));
                        assert(rs.take(k + 1 as int).drop_last() =~= rs.take(k as int));
                    }
                    let mut sub = match self.transitions_enabled(r) {
                        Ok(v) => v,
                        Err(_) => {
                            proof {
                                assert(false);
                            }
                            vstd::pervasive::unreached()
                        },
                    };
                    proof {
                        let psub = choose|p: Seq<bool>|
                            self.enabled_exact(self.enabled_candidates_of(r as int), p, sub@);
                        self.lemma_enabled_exact_concat(
                            self.enabled_candidates_list(dbid as int, rs.take(k as int)),
                            picks,
                            enabled@,
                            self.enabled_candidates_of(r as int),
                            psub,
                            sub@,
                        );
                        picks = picks + psub;
                    }
                    enabled.append(&mut sub);
                    k += 1;
                }
                proof {
                    assert(rs.take(rs.len() as int) =~= rs);
                    assert(self.enabled_candidates_of(dbid as int) == self.enabled_candidates_list(
                        dbid as int,
                        rs,
                    ));
                    assert(self.enabled_exact(
                        self.enabled_candidates_of(dbid as int),
                        picks,
                        enabled@,
                    ));
                }
            },
            _ => {
                return Err(StateMachineError::InvalidVertex(dbid));
            },
        }
        proof {
            assert(self.enabled_result_exact(dbid as int, enabled@));
        }
        Ok(enabled)
    }
}

/// The members of `cand` whose verdict in `picks` is true, in order.
pub open spec fn picked_ids(cand: Seq<usize>, picks: Seq<bool>) -> Seq<usize>
    decreases cand.len(),
{
    if cand.len() == 0 {
        Seq::empty()
    } else {
        let rest = picked_ids(cand.drop_last(), picks.drop_last());
        if picks.last() {
            rest.push(cand.last())
        } else {
            rest
        }
    }
}

/// Selecting over concatenated candidate and verdict lists selects over
/// each part.
proof fn lemma_picked_ids_concat(c1: Seq<usize>, p1: Seq<bool>, c2: Seq<usize>, p2: Seq<bool>)
    requires
        p1.len() == c1.len(),
        p2.len() == c2.len(),
    ensures
        picked_ids(c1 + c2, p1 + p2) == picked_ids(c1, p1) + picked_ids(c2, p2),
    decreases c2.len(),
{
    if c2.len() == 0 {
        assert(c1 + c2 =~= c1);
        assert(p1 + p2 =~= p1);
        assert(picked_ids(c1, p1) + picked_ids(c2, p2) =~= picked_ids(c1, p1));
    } else {
        lemma_picked_ids_concat(c1, p1, c2.drop_last(), p2.drop_last());
        assert((c1 + c2).drop_last() =~= c1 + c2.drop_last());
        assert((p1 + p2).drop_last() =~= p1 + p2.drop_last());
        assert((c1 + c2).last() == c2.last());
        assert((p1 + p2).last() == p2.last());
        if p2.last() {
            assert(picked_ids(c1, p1) + picked_ids(c2, p2) =~= (picked_ids(c1, p1) + picked_ids(
                c2.drop_last(),
                p2.drop_last(),
            )).push(c2.last()));
        }
    }
}

} // verus!
