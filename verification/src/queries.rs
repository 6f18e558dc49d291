//! Read-side queries over the model: names, classification, region and state
//! listings, and transition listings. None of these mutates the arena.

use vstd::prelude::*;
use vstd::string::StringExecFns;
use crate::element::ElementType;
use crate::element::VertexType;
use crate::errors::StateMachineError;
use crate::errors::StateMachineResult;
use crate::machine::Db;
use crate::transition::Transition;

verus! {

/// The identifiers of a transition sequence, in order.
pub open spec fn transition_ids<G, B>(ts: Seq<Transition<G, B>>) -> Seq<usize>
    decreases ts.len(),
{
    if ts.len() == 0 {
        Seq::empty()
    } else {
        transition_ids(ts.drop_last()).push(ts.last().dbid)
    }
}

impl<G: Fn() -> bool, B: Fn()> Db<G, B> {
    /// The regions owned by state element `d`.
    pub open spec fn state_regions(self, d: int) -> Seq<usize> {
        self.state_of(d).regions@
    }

    /// The identifiers, in declaration order, of the transitions of `ts`
    /// whose target lies directly within region `rd`.
    pub open spec fn region_transition_ids(self, ts: Seq<Transition<G, B>>, rd: int) -> Seq<usize>
        decreases ts.len(),
    {
        if ts.len() == 0 {
            Seq::empty()
        } else {
            let rest = self.region_transition_ids(ts.drop_last(), rd);
            if 0 <= (ts.last().target as int) < self.parents@.len() && self.parents@[ts.last().target as int] == rd {
                rest.push(ts.last().dbid)
            } else {
                rest
            }
        }
    }

    /// The members of `vs` that are ordinary states, in order.
    pub open spec fn state_members(self, vs: Seq<usize>) -> Seq<usize>
        decreases vs.len(),
    {
        if vs.len() == 0 {
            Seq::empty()
        } else {
            let rest = self.state_members(vs.drop_last());
            if self.is_state_id(vs.last() as int) {
                rest.push(vs.last())
            } else {
                rest
            }
        }
    }

    /// The members of `vs` that are composite states, in order.
    pub open spec fn composite_members(self, vs: Seq<usize>) -> Seq<usize>
        decreases vs.len(),
    {
        if vs.len() == 0 {
            Seq::empty()
        } else {
            let rest = self.composite_members(vs.drop_last());
            if self.state_regions(vs.last() as int).len() > 0 {
                rest.push(vs.last())
            } else {
                rest
            }
        }
    }

    /// The members of `vs` that are orthogonal states, in order.
    pub open spec fn orthogonal_members(self, vs: Seq<usize>) -> Seq<usize>
        decreases vs.len(),
    {
        if vs.len() == 0 {
            Seq::empty()
        } else {
            let rest = self.orthogonal_members(vs.drop_last());
            if self.state_regions(vs.last() as int).len() > 1 {
                rest.push(vs.last())
            } else {
                rest
            }
        }
    }

    /// The short name of an element; fails only on an out-of-range
    /// identifier.
    pub fn name(&self, dbid: usize) -> (r: StateMachineResult<&String>)
        requires
            self.wf(),
        ensures
            self.valid_id(dbid as int) ==> (r matches Ok(s) && s@ == self.names@[dbid as int]@),
            !self.valid_id(dbid as int) ==> r == Err::<&String, _>(
                StateMachineError::InvalidDbId(dbid),
            ),
    {
        self.is_valid_dbid(dbid)?;
        Ok(self.name_unchecked(dbid))
    }

    /// The fully qualified name of an element: the names on the path from
    /// the state machine down to it, joined by the separator. Fails only on
    /// an out-of-range identifier.
    pub fn fullname(&self, dbid: usize) -> (r: StateMachineResult<&String>)
        requires
            self.wf(),
        ensures
            self.valid_id(dbid as int) ==> (r matches Ok(s) && s@ == self.fullnames@[dbid as int]@),
            !self.valid_id(dbid as int) ==> r == Err::<&String, _>(
                StateMachineError::InvalidDbId(dbid),
            ),
    {
        self.is_valid_dbid(dbid)?;
        Ok(self.fullname_unchecked(dbid))
    }

    /// The short name of an element the caller has already validated.
    pub(crate) fn name_unchecked(&self, dbid: usize) -> (r: &String)
        requires
            self.wf(),
            self.valid_id(dbid as int),
        ensures
            r@ == self.names@[dbid as int]@,
    {
        &self.names[dbid]
    }

    /// The fully qualified name of an element the caller has already
    /// validated.
    pub(crate) fn fullname_unchecked(&self, dbid: usize) -> (r: &String)
        requires
            self.wf(),
            self.valid_id(dbid as int),
        ensures
            r@ == self.fullnames@[dbid as int]@,
    {
        &self.fullnames[dbid]
    }

    /// The region directly containing an element: a vertex's container, a
    /// region itself, or the container of a transition's source vertex.
    /// The state machine and event types live in no region.
    pub fn owning_region(&self, dbid: usize) -> (r: StateMachineResult<usize>)
        requires
            self.wf(),
        ensures
            !self.valid_id(dbid as int) ==> r == Err::<usize, _>(
                StateMachineError::InvalidDbId(dbid),
            ),
            self.is_vertex_id(dbid as int) ==> r == Ok::<_, StateMachineError>(
                self.vertex_of(dbid as int).container,
            ),
            self.is_region_id(dbid as int) ==> r == Ok::<_, StateMachineError>(dbid),
            self.is_transition_id(dbid as int) ==> r == Ok::<_, StateMachineError>(
                self.vertex_of(self.transition_of(dbid as int).source as int).container,
            ),
            self.valid_id(dbid as int) && (self.kind_of(dbid as int)
                == ElementType::StateMachine || self.kind_of(dbid as int)
                == ElementType::EventType) ==> r == Err::<usize, _>(
                StateMachineError::InvalidVertex(dbid),
            ),
    {
        self.is_valid_dbid(dbid)?;
        proof {
            assert(self.element_ok(dbid as int));
        }
        match self.elements[dbid].element_type {
            ElementType::Vertex(_) => Ok(self.vertices[self.elements[dbid].idx].container),
            ElementType::Region => Ok(dbid),
            ElementType::StateMachine => Err(StateMachineError::InvalidVertex(dbid)),
            ElementType::EventType => Err(StateMachineError::InvalidVertex(dbid)),
            ElementType::Transition => {
                let t_idx = self.elements[dbid].idx;
                proof {
                    assert(self.transition_entry_ok(t_idx as int));
                    assert(self.element_ok(self.transitions@[t_idx as int].source as int));
                }
                let src = self.transitions[t_idx].source;
                Ok(self.vertices[self.elements[src].idx].container)
            },
        }
    }

    /// Whether the element is an ordinary state (pseudostates and all other
    /// element kinds are not).
    pub fn is_state(&self, dbid: usize) -> (r: StateMachineResult<bool>)
        requires
            self.wf(),
        ensures
            self.valid_id(dbid as int) ==> r == Ok::<_, StateMachineError>(
                self.is_state_id(dbid as int),
            ),
            !self.valid_id(dbid as int) ==> r == Err::<bool, _>(
                StateMachineError::InvalidDbId(dbid),
            ),
    {
        let ele = self.element(dbid)?;
        match ele.element_type {
            ElementType::Vertex(VertexType::State) => Ok(true),
            _ => Ok(false),
        }
    }

    /// Whether the state owns no region at all.
    pub fn is_simple(&self, dbid: usize) -> (r: StateMachineResult<bool>)
        requires
            self.wf(),
        ensures
            self.is_state_id(dbid as int) ==> r == Ok::<_, StateMachineError>(
                self.state_regions(dbid as int).len() == 0,
            ),
            !self.valid_id(dbid as int) ==> r == Err::<bool, _>(
                StateMachineError::InvalidDbId(dbid),
            ),
            self.valid_id(dbid as int) && !self.is_state_id(dbid as int) ==> r == Err::<bool, _>(
                StateMachineError::InvalidState(dbid),
            ),
    {
        let s_idx = self.state(dbid)?;
        proof {
            assert(self.element_ok(dbid as int));
            assert(self.vertex_entry_ok(self.idx_of(dbid as int)));
        }
        Ok(self.states[s_idx].is_simple())
    }

    /// Whether the state owns at least one region.
    pub fn is_composite(&self, dbid: usize) -> (r: StateMachineResult<bool>)
        requires
            self.wf(),
        ensures
            self.is_state_id(dbid as int) ==> r == Ok::<_, StateMachineError>(
                self.state_regions(dbid as int).len() > 0,
            ),
            !self.valid_id(dbid as int) ==> r == Err::<bool, _>(
                StateMachineError::InvalidDbId(dbid),
            ),
            self.valid_id(dbid as int) && !self.is_state_id(dbid as int) ==> r == Err::<bool, _>(
                StateMachineError::InvalidState(dbid),
            ),
    {
        let s_idx = self.state(dbid)?;
        proof {
            assert(self.element_ok(dbid as int));
            assert(self.vertex_entry_ok(self.idx_of(dbid as int)));
        }
        Ok(self.states[s_idx].is_composite())
    }

    /// Whether the state owns more than one region.
    pub fn is_orthogonal(&self, dbid: usize) -> (r: StateMachineResult<bool>)
        requires
            self.wf(),
        ensures
            self.is_state_id(dbid as int) ==> r == Ok::<_, StateMachineError>(
                self.state_regions(dbid as int).len() > 1,
            ),
            !self.valid_id(dbid as int) ==> r == Err::<bool, _>(
                StateMachineError::InvalidDbId(dbid),
            ),
            self.valid_id(dbid as int) && !self.is_state_id(dbid as int) ==> r == Err::<bool, _>(
                StateMachineError::InvalidState(dbid),
            ),
    {
        let s_idx = self.state(dbid)?;
        proof {
            assert(self.element_ok(dbid as int));
            assert(self.vertex_entry_ok(self.idx_of(dbid as int)));
        }
        Ok(self.states[s_idx].is_orthogonal())
    }

    /// The three classifications never disagree: a state is simple exactly
    /// when it is not composite, and an orthogonal state is always composite.
    pub proof fn lemma_classification_consistent(self, d: int)
        ensures
            (self.state_regions(d).len() == 0) <==> !(self.state_regions(d).len() >= 1),
            (self.state_regions(d).len() > 1) ==> (self.state_regions(d).len() >= 1),
            (self.state_regions(d).len() > 0) <==> (self.state_regions(d).len() >= 1),
    {
    }

    /// Copy a list of identifiers.
    pub(crate) fn clone_ids(v: &Vec<usize>) -> (r: Vec<usize>)
        ensures
            r@ == v@,
    {
        let mut r: Vec<usize> = Vec::new();
        let mut i: usize = 0;
        while i < v.len()
            invariant
                i <= v.len(),
                r@ == v@.take(i as int),
            decreases v.len() - i,
        {
            r.push(v[i]);
            proof {
                assert(v@.take(i + 1 as int) =~= v@.take(i as int).push(v@[i as int]));
            }
            i += 1;
        }
        proof {
            assert(v@.take(v@.len() as int) =~= v@);
        }
        r
    }

    /// The identifiers of the top-level regions of the state machine, in
    /// creation order.
    pub fn sm_regions(&self) -> (r: Vec<usize>)
        ensures
            r@ == self.state_machine.regions@,
    {
        Self::clone_ids(&self.state_machine.regions)
    }

    /// The identifiers of the regions of a state, or of the state machine's
    /// top-level regions; other element kinds own no regions.
    pub fn regions(&self, dbid: usize) -> (r: StateMachineResult<Vec<usize>>)
        requires
            self.wf(),
        ensures
            !self.valid_id(dbid as int) ==> r == Err::<Vec<usize>, _>(
                StateMachineError::InvalidDbId(dbid),
            ),
            self.is_state_id(dbid as int) ==> (r matches Ok(v) && v@ == self.state_regions(
                dbid as int,
            )),
            self.valid_id(dbid as int) && self.kind_of(dbid as int) == ElementType::StateMachine
                ==> (r matches Ok(v) && v@ == self.state_machine.regions@),
            self.valid_id(dbid as int) && !self.is_state_id(dbid as int) && self.kind_of(
                dbid as int,
            ) != ElementType::StateMachine ==> r == Err::<Vec<usize>, _>(
                StateMachineError::InvalidState(dbid),
            ),
    {
        let ele = self.element(dbid)?;
        proof {
            assert(self.element_ok(dbid as int));
        }
        match ele.element_type {
            ElementType::Vertex(VertexType::State) => {
                proof {
                    assert(self.vertex_entry_ok(self.idx_of(dbid as int)));
                }
                let s_idx = self.vertices[ele.idx].idx;
                Ok(Self::clone_ids(&self.states[s_idx].regions))
            },
            ElementType::StateMachine => Ok(Self::clone_ids(&self.state_machine.regions)),
            _ => Err(StateMachineError::InvalidState(dbid)),
        }
    }

    /// The sole region of a state or of the state machine; fails when there
    /// is none or when there are several.
    pub fn get_only_region(&self, dbid: usize) -> (r: StateMachineResult<usize>)
        requires
            self.wf(),
        ensures
            !self.valid_id(dbid as int) ==> r == Err::<usize, _>(
                StateMachineError::InvalidDbId(dbid),
            ),
            self.is_state_id(dbid as int) ==> r == Self::only_of(
                self.state_regions(dbid as int),
                dbid,
            ),
            self.valid_id(dbid as int) && self.kind_of(dbid as int) == ElementType::StateMachine
                ==> r == Self::only_of(self.state_machine.regions@, dbid),
            self.valid_id(dbid as int) && !self.is_state_id(dbid as int) && self.kind_of(
                dbid as int,
            ) != ElementType::StateMachine ==> r == Err::<usize, _>(
                StateMachineError::InvalidState(dbid),
            ),
    {
        let regions = self.regions(dbid)?;
        if regions.len() == 0 {
            Err(StateMachineError::ContainsNoRegions(dbid))
        } else if regions.len() == 1 {
            Ok(regions[0])
        } else {
            Err(StateMachineError::ContainsMultipleRegions(dbid))
        }
    }

    /// What `get_only_region` decides about a region list.
    pub open spec fn only_of(rs: Seq<usize>, dbid: usize) -> Result<usize, StateMachineError> {
        if rs.len() == 0 {
            Err(StateMachineError::ContainsNoRegions(dbid))
        } else if rs.len() == 1 {
            Ok(rs[0])
        } else {
            Err(StateMachineError::ContainsMultipleRegions(dbid))
        }
    }

    /// Whether a valid element is an ordinary state.
    pub fn state_test(&self, dbid: usize) -> (r: bool)
        requires
            self.wf(),
            self.valid_id(dbid as int),
        ensures
            r == self.is_state_id(dbid as int),
    {
        match self.elements[dbid].element_type {
            ElementType::Vertex(VertexType::State) => true,
            _ => false,
        }
    }

    /// Whether a state element is composite.
    pub fn composite_test(&self, dbid: usize) -> (r: bool)
        requires
            self.wf(),
            self.is_state_id(dbid as int),
        ensures
            r == (self.state_regions(dbid as int).len() > 0),
    {
        proof {
            assert(self.element_ok(dbid as int));
            assert(self.vertex_entry_ok(self.idx_of(dbid as int)));
        }
        self.states[self.vertices[self.elements[dbid].idx].idx].is_composite()
    }

    /// Whether a state element is orthogonal.
    pub fn orthogonal_test(&self, dbid: usize) -> (r: bool)
        requires
            self.wf(),
            self.is_state_id(dbid as int),
        ensures
            r == (self.state_regions(dbid as int).len() > 1),
    {
        proof {
            assert(self.element_ok(dbid as int));
            assert(self.vertex_entry_ok(self.idx_of(dbid as int)));
        }
        self.states[self.vertices[self.elements[dbid].idx].idx].is_orthogonal()
    }

    /// The ordinary states directly inside a region, in declaration order.
    /// The identifier must denote a region.
    pub fn states_unchecked(&self, dbid: usize) -> (r: Vec<usize>)
        requires
            self.wf(),
            self.is_region_id(dbid as int),
        ensures
            r@ == self.state_members(self.region_of(dbid as int).subvertex@),
    {
        proof {
            assert(self.element_ok(dbid as int));
            assert(self.region_entry_ok(self.idx_of(dbid as int)));
        }
        let r_idx = self.elements[dbid].idx;
        let sub = &self.regions[r_idx].subvertex;
        let ghost subs = sub@;
        let mut r: Vec<usize> = Vec::new();
        let mut i: usize = 0;
        while i < sub.len()
            invariant
                self.wf(),
                self.is_region_id(dbid as int),
                r_idx as int == self.idx_of(dbid as int),
                sub == &self.regions@[r_idx as int].subvertex,
                subs == sub@,
                i <= sub@.len(),
                r@ == self.state_members(subs.take(i as int)),
            decreases sub@.len() - i,
        {
            proof {
                assert(self.element_ok(dbid as int));
                assert(self.region_entry_ok(r_idx as int));
                assert(self.vertex_in_region(subs[i as int] as int, dbid as int));
                assert(subs.take(i + 1 as int).drop_last() =~= subs.take(i as int));
            }
            let v = sub[i];
            if self.state_test(v) {
                r.push(v);
            }
            i += 1;
        }
        proof {
            assert(subs.take(subs.len() as int) =~= subs);
        }
        r
    }

    /// The ordinary states directly inside a region.
    pub fn states(&self, dbid: usize) -> (r: StateMachineResult<Vec<usize>>)
        requires
            self.wf(),
        ensures
            !self.valid_id(dbid as int) ==> r == Err::<Vec<usize>, _>(
                StateMachineError::InvalidDbId(dbid),
            ),
            self.is_region_id(dbid as int) ==> (r matches Ok(v) && v@ == self.state_members(
                self.region_of(dbid as int).subvertex@,
            )),
            self.valid_id(dbid as int) && !self.is_region_id(dbid as int) ==> r == Err::<
                Vec<usize>,
                _,
            >(StateMachineError::InvalidRegion(dbid)),
    {
        let ele = self.element(dbid)?;
        match ele.element_type {
            ElementType::Region => Ok(self.states_unchecked(dbid)),
            _ => Err(StateMachineError::InvalidRegion(dbid)),
        }
    }

    /// The composite states directly inside a region.
    pub fn composite_states(&self, dbid: usize) -> (r: Vec<usize>)
        requires
            self.wf(),
            self.is_region_id(dbid as int),
        ensures
            r@ == self.composite_members(
                self.state_members(self.region_of(dbid as int).subvertex@),
            ),
    {
        let sts = self.states_unchecked(dbid);
        let ghost stss = sts@;
        proof {
            self.lemma_state_members_are_states(self.region_of(dbid as int).subvertex@);
        }
        let mut r: Vec<usize> = Vec::new();
        let mut i: usize = 0;
        while i < sts.len()
            invariant
                self.wf(),
                stss == sts@,
                forall|k: int| 0 <= k < stss.len() ==> self.is_state_id(#[trigger] stss[k] as int),
                i <= stss.len(),
                r@ == self.composite_members(stss.take(i as int)),
            decreases stss.len() - i,
        {
            proof {
                assert(stss.take(i + 1 as int).drop_last() =~= stss.take(i as int));
            }
            let v = sts[i];
            if self.composite_test(v) {
                r.push(v);
            }
            i += 1;
        }
        proof {
            assert(stss.take(stss.len() as int) =~= stss);
        }
        r
    }

    /// The orthogonal states directly inside a region.
    pub fn orthogonal_states(&self, dbid: usize) -> (r: Vec<usize>)
        requires
            self.wf(),
            self.is_region_id(dbid as int),
        ensures
            r@ == self.orthogonal_members(
                self.state_members(self.region_of(dbid as int).subvertex@),
            ),
    {
        let sts = self.states_unchecked(dbid);
        let ghost stss = sts@;
        proof {
            self.lemma_state_members_are_states(self.region_of(dbid as int).subvertex@);
        }
        let mut r: Vec<usize> = Vec::new();
        let mut i: usize = 0;
        while i < sts.len()
            invariant
                self.wf(),
                stss == sts@,
                forall|k: int| 0 <= k < stss.len() ==> self.is_state_id(#[trigger] stss[k] as int),
                i <= stss.len(),
                r@ == self.orthogonal_members(stss.take(i as int)),
            decreases stss.len() - i,
        {
            proof {
                assert(stss.take(i + 1 as int).drop_last() =~= stss.take(i as int));
            }
            let v = sts[i];
            if self.orthogonal_test(v) {
                r.push(v);
            }
            i += 1;
        }
        proof {
            assert(stss.take(stss.len() as int) =~= stss);
        }
        r
    }

    /// Every member of a state filtering is an ordinary state.
    pub proof fn lemma_state_members_are_states(self, vs: Seq<usize>)
        ensures
            forall|k: int|
                0 <= k < self.state_members(vs).len() ==> self.is_state_id(
                    #[trigger] self.state_members(vs)[k] as int,
                ),
        decreases vs.len(),
    {
        if vs.len() > 0 {
            self.lemma_state_members_are_states(vs.drop_last());
            let rest = self.state_members(vs.drop_last());
            assert forall|k: int|
                0 <= k < self.state_members(vs).len() implies self.is_state_id(
                self.state_members(vs)[k] as int,
            ) by {
                if k < rest.len() {
                    assert(self.state_members(vs)[k] == rest[k]);
                } else {
                    assert(self.state_members(vs)[k] == vs.last());
                }
            }
        }
    }

    /// The incoming transitions of a region (those whose target lies directly
    /// within it), the incoming transitions of a state, or every transition
    /// of the model when asked about the state machine itself.
    pub fn transitions(&self, dbid: usize) -> (r: StateMachineResult<Vec<usize>>)
        requires
            self.wf(),
        ensures
            !self.valid_id(dbid as int) ==> r == Err::<Vec<usize>, _>(
                StateMachineError::InvalidDbId(dbid),
            ),
            self.is_region_id(dbid as int) ==> (r matches Ok(v) && v@
                == self.region_transition_ids(self.transitions@, dbid as int)),
            self.is_state_id(dbid as int) ==> (r matches Ok(v) && v@ == self.vertex_of(
                dbid as int,
            ).incoming@),
            self.valid_id(dbid as int) && self.kind_of(dbid as int) == ElementType::StateMachine
                ==> (r matches Ok(v) && v@ == transition_ids(self.transitions@)),
            self.valid_id(dbid as int) && !self.is_region_id(dbid as int) && !self.is_state_id(
                dbid as int,
            ) && self.kind_of(dbid as int) != ElementType::StateMachine ==> r == Err::<
                Vec<usize>,
                _,
            >(StateMachineError::InvalidVertex(dbid)),
    {
        let ele = self.element(dbid)?;
        proof {
            assert(self.element_ok(dbid as int));
        }
        match ele.element_type {
            ElementType::Region => {
                let mut r: Vec<usize> = Vec::new();
                let mut i: usize = 0;
                while i < self.transitions.len()
                    invariant
                        self.wf(),
                        i <= self.transitions@.len(),
                        r@ == self.region_transition_ids(
                            self.transitions@.take(i as int),
                            dbid as int,
                        ),
                    decreases self.transitions@.len() - i,
                {
                    proof {
                        assert(self.transition_entry_ok(i as int));
                        assert(self.transitions@.take(i + 1 as int).drop_last()
                            =~= self.transitions@.take(i as int));
                    }
                    let t = &self.transitions[i];
                    if self.parents[t.target] == dbid {
                        r.push(t.dbid);
                    }
                    i += 1;
                }
                proof {
                    assert(self.transitions@.take(self.transitions@.len() as int)
                        =~= self.transitions@);
                }
                Ok(r)
            },
            ElementType::Vertex(VertexType::State) => {
                proof {
                    assert(self.vertex_entry_ok(self.idx_of(dbid as int)));
                }
                Ok(Self::clone_ids(&self.vertices[ele.idx].incoming))
            },
            ElementType::StateMachine => {
                let mut r: Vec<usize> = Vec::new();
                let mut i: usize = 0;
                while i < self.transitions.len()
                    invariant
                        self.wf(),
                        i <= self.transitions@.len(),
                        r@ == transition_ids(self.transitions@.take(i as int)),
                    decreases self.transitions@.len() - i,
                {
                    proof {
                        assert(self.transitions@.take(i + 1 as int).drop_last()
                            =~= self.transitions@.take(i as int));
                    }
                    let t = &self.transitions[i];
                    r.push(t.dbid);
                    i += 1;
                }
                proof {
                    assert(self.transitions@.take(self.transitions@.len() as int)
                        =~= self.transitions@);
                }
                Ok(r)
            },
            _ => Err(StateMachineError::InvalidVertex(dbid)),
        }
    }

    /// A short description of one element: its kind and fully qualified
    /// name.
    pub fn to_string(&self, dbid: usize) -> (r: StateMachineResult<String>)
        requires
            self.wf(),
        ensures
            self.valid_id(dbid as int) ==> r is Ok,
            !self.valid_id(dbid as int) ==> r == Err::<String, _>(
                StateMachineError::InvalidDbId(dbid),
            ),
    {
        let ele = self.element(dbid)?;
        match ele.element_type {
            ElementType::Vertex(_) => Ok(self.vertex_to_string(dbid)),
            ElementType::StateMachine => Ok(
                String::from_str("StateMachine ").concat(self.fullname_unchecked(dbid).as_str()),
            ),
            ElementType::Region => Ok(
                String::from_str("Region ").concat(self.fullname_unchecked(dbid).as_str()),
            ),
            ElementType::EventType => Ok(
                String::from_str("EventType ").concat(self.fullname_unchecked(dbid).as_str()),
            ),
            ElementType::Transition => Ok(
                String::from_str("Transition ").concat(self.fullname_unchecked(dbid).as_str()),
            ),
        }
    }

    /// A short description of a vertex: its kind and fully qualified name.
    pub(crate) fn vertex_to_string(&self, dbid: usize) -> (r: String)
        requires
            self.wf(),
            self.is_vertex_id(dbid as int),
    {
        match self.elements[dbid].element_type {
            ElementType::Vertex(VertexType::State) => self.state_to_string_body(dbid),
            _ => self.vertex_to_string_body(dbid),
        }
    }

    /// The common part of a vertex description.
    pub(crate) fn vertex_to_string_body(&self, dbid: usize) -> (r: String)
        requires
            self.wf(),
            self.is_vertex_id(dbid as int),
    {
        String::from_str("Vertex ").concat(self.fullname_unchecked(dbid).as_str())
    }

    /// The description of an ordinary state.
    pub(crate) fn state_to_string_body(&self, dbid: usize) -> (r: String)
        requires
            self.wf(),
            self.is_state_id(dbid as int),
    {
        let head = String::from_str("State ").concat(self.fullname_unchecked(dbid).as_str());
        if self.orthogonal_test(dbid) {
            head.concat(" (orthogonal)")
        } else if self.composite_test(dbid) {
            head.concat(" (composite)")
        } else {
            head.concat(" (simple)")
        }
    }
}

} // verus!
