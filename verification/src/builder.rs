//! Builder operations: every way the model grows. Each operation validates
//! before it mutates, so a failed call leaves the model exactly as it was,
//! and each re-establishes the well-formedness invariant.

use vstd::prelude::*;
use crate::element::Container;
use crate::element::ElementType;
use crate::element::VertexType;
use crate::errors::StateMachineError;
use crate::errors::StateMachineResult;
use crate::machine::str_eq;
use crate::machine::Db;
use crate::stores::Region;
use crate::stores::State;
use crate::stores::VertexDef;

verus! {

impl<G: Fn() -> bool, B: Fn()> Db<G, B> {
    /// Whether element `d` already carries `name`: the name of the vertex,
    /// region, transition or event type it denotes. The state machine
    /// element always counts as a conflict; that arm is unreachable in
    /// practice, since no checked list ever holds element 0.
    pub open spec fn dup_name_at(self, d: int, name: Seq<char>) -> bool {
        match self.kind_of(d) {
            ElementType::StateMachine => true,
            _ => self.names@[d]@ == name,
        }
    }

    /// Whether any element of `ids` already carries `name`.
    pub open spec fn has_dup(self, ids: Seq<usize>, name: Seq<char>) -> bool {
        exists|k: int| 0 <= k < ids.len() && self.dup_name_at(ids[k] as int, name)
    }

    /// Check `name` against the names of the listed elements; report a
    /// duplicate-name conflict when any of them already carries it.
    pub(crate) fn is_duplicate(&self, name: &str, vec: &Vec<usize>) -> (r: StateMachineResult<()>)
        requires
            self.wf(),
            forall|k: int| 0 <= k < vec@.len() ==> self.valid_id(#[trigger] vec@[k] as int),
        ensures
            r is Ok <==> !self.has_dup(vec@, name@),
            r matches Err(e) ==> (e matches StateMachineError::Duplicate(n) && n@ == name@),
    {
        let mut k: usize = 0;
        while k < vec.len()
            invariant
                self.wf(),
                forall|j: int| 0 <= j < vec@.len() ==> self.valid_id(#[trigger] vec@[j] as int),
                k <= vec@.len(),
                forall|j: int| 0 <= j < k as int ==> !self.dup_name_at(#[trigger] vec@[j] as int, name@),
            decreases vec@.len() - k,
        {
            let d = vec[k];
            proof {
                assert(self.element_ok(d as int));
            }
            let hit = match self.elements[d].element_type {
                ElementType::Vertex(_) => {
                    proof {
                        assert(self.vertex_entry_ok(self.idx_of(d as int)));
                    }
                    str_eq(&self.vertices[self.elements[d].idx].name, name)
                },
                ElementType::Region => {
                    proof {
                        assert(self.region_entry_ok(self.idx_of(d as int)));
                    }
                    str_eq(&self.regions[self.elements[d].idx].name, name)
                },
                ElementType::Transition => {
                    proof {
                        assert(self.transition_entry_ok(self.idx_of(d as int)));
                    }
                    str_eq(&self.transitions[self.elements[d].idx].name, name)
                },
                ElementType::EventType => {
                    proof {
                        assert(self.event_entry_ok(self.idx_of(d as int)));
                    }
                    str_eq(&self.event_types[self.elements[d].idx].name, name)
                },
                ElementType::StateMachine => true,
            };
            if hit {
                proof {
                    assert(self.dup_name_at(vec@[k as int] as int, name@));
                }
                return Err(StateMachineError::Duplicate(name.to_owned()));
            }
            k += 1;
        }
        Ok(())
    }

    /// Everything a successful `add_region` call changes: one region element
    /// appended to the arena under `parent` and registered in its
    /// container's region list, everything else untouched.
    pub open spec fn region_added(
        pre: Db<G, B>,
        post: Db<G, B>,
        name: Seq<char>,
        parent: usize,
        d: usize,
    ) -> bool {
        &&& pre.is_state_id(parent as int) || (pre.valid_id(parent as int) && pre.kind_of(
            parent as int,
        ) == ElementType::StateMachine)
        &&& d as int == pre.len()
        &&& post.wf()
        &&& post.len() == pre.len() + 1
        &&& post.elements@ == pre.elements@.push(
            crate::element::Element {
                dbid: d,
                idx: pre.regions@.len() as usize,
                element_type: ElementType::Region,
            },
        )
        &&& post.parents@ == pre.parents@.push(parent)
        &&& forall|i: int|
            0 <= i < pre.len() ==> post.names@[i] == pre.names@[i] && post.fullnames@[i]
                == pre.fullnames@[i]
        &&& post.names@[d as int]@ == name
        &&& post.fullnames@[d as int]@ == pre.fullnames@[parent as int]@
            + crate::machine::name_sep() + name
        &&& post.is_region_id(d as int)
        &&& post.parent_of(d as int) == parent
        &&& post.regions@.len() == pre.regions@.len() + 1
        &&& forall|j: int| 0 <= j < pre.regions@.len() ==> post.regions@[j] == pre.regions@[j]
        &&& post.idx_of(d as int) == pre.regions@.len()
        &&& post.region_of(d as int).name@ == name
        &&& post.region_of(d as int).dbid == d
        &&& post.region_of(d as int).subvertex@.len() == 0
        &&& post.region_of(d as int).initial_state == 0
        &&& post.region_of(d as int).active_state == 0
        &&& post.vertices == pre.vertices
        &&& post.transitions == pre.transitions
        &&& post.event_types == pre.event_types
        &&& post.name == pre.name
        &&& post.dbid == pre.dbid
        &&& (pre.is_state_id(parent as int) ==> {
            let si = pre.vertex_of(parent as int).idx as int;
            &&& post.state_machine == pre.state_machine
            &&& post.states@.len() == pre.states@.len()
            &&& forall|j: int|
                0 <= j < pre.states@.len() && j != si ==> post.states@[j] == pre.states@[j]
            &&& post.states@[si].regions@ == pre.states@[si].regions@.push(d)
            &&& post.states@[si].dbid == pre.states@[si].dbid
            &&& post.states@[si].entry == pre.states@[si].entry
            &&& post.states@[si].exit == pre.states@[si].exit
            &&& post.states@[si].do_while == pre.states@[si].do_while
        })
        &&& (pre.kind_of(parent as int) == ElementType::StateMachine ==> {
            &&& post.states == pre.states
            &&& post.state_machine.regions@ == pre.state_machine.regions@.push(d)
            &&& post.state_machine.name == pre.state_machine.name
            &&& post.state_machine.dbid == pre.state_machine.dbid
        })
    }

    /// Add a region to a state or to the state machine; any other parent is
    /// rejected. The new region starts empty, with no default and no active
    /// vertex, and is registered in its container's region list.
    #[verifier::rlimit(50)]
    pub fn add_region(&mut self, name: &str, parent: usize) -> (r: StateMachineResult<usize>)
        requires
            old(self).wf(),
        ensures
            match r {
                Ok(d) => Self::region_added(*old(self), *final(self), name@, parent, d),
                Err(e) => {
                    &&& *final(self) == *old(self)
                    &&& !(old(self).is_state_id(parent as int) || (old(self).valid_id(
                        parent as int,
                    ) && old(self).kind_of(parent as int) == ElementType::StateMachine))
                    &&& (!old(self).valid_id(parent as int) ==> e
                        == StateMachineError::InvalidDbId(parent))
                    &&& (old(self).valid_id(parent as int) ==> e == StateMachineError::InvalidState(
                        parent,
                    ))
                },
            },
    {
        let p_ele = self.element(parent)?;
        proof {
            assert(self.element_ok(parent as int));
        }
        let c = match p_ele.element_type {
            ElementType::Vertex(VertexType::State) => Container::State(p_ele.dbid),
            ElementType::StateMachine => Container::StateMachine(p_ele.dbid),
            _ => {
                return Err(StateMachineError::InvalidState(parent));
            },
        };
        proof {
            if old(self).is_state_id(parent as int) {
                assert(old(self).vertex_entry_ok(old(self).idx_of(parent as int)));
            }
        }
        let idx = self.regions.len();
        let dbid = self.elements.len();
        self.regions.push(Region::new(name, dbid, c));
        let dbid = self.new_element(name, parent, idx, ElementType::Region);
        self.add_region_to_container(c, dbid);
        proof {
            let pre = *old(self);
            let post = *self;
            assert(post.parent_of(dbid as int) == parent as int);
            assert forall|i: int| 0 < i < post.len() implies 0 <= #[trigger] post.parent_of(i)
                < i by {
                if i < pre.len() {
                    assert(0 <= pre.parent_of(i) < i);
                }
            }
            assert forall|i: int| 0 <= i < post.len() implies post.element_ok(i) by {
                if i < pre.len() {
                    assert(pre.element_ok(i));
                } else {
                    assert(post.regions@[post.idx_of(i)].dbid == i);
                }
            }
            assert forall|k: int|
                0 <= k < post.state_machine.regions@.len() implies post.top_region_ok(
                post.state_machine.regions@[k] as int,
            ) by {
                if k < pre.state_machine.regions@.len() {
                    assert(pre.top_region_ok(pre.state_machine.regions@[k] as int));
                }
            }
            assert forall|i: int|
                0 < i < post.len() implies post.fullnames@[i]@ == post.fullnames@[post.parent_of(
                i,
            )]@ + crate::machine::name_sep() + post.names@[i]@ by {
                if i < pre.len() {
                    assert(pre.fullnames@[i]@ == pre.fullnames@[pre.parent_of(i)]@
                        + crate::machine::name_sep() + pre.names@[i]@);
                    assert(0 <= pre.parent_of(i) < i);
                }
            }
            assert forall|j: int| 0 <= j < post.regions@.len() implies post.region_entry_ok(j) by {
                if j < pre.regions@.len() {
                    assert(pre.region_entry_ok(j));
                } else {
                    assert(post.region_entry_ok(j));
                }
            }
            assert forall|j: int| 0 <= j < post.states@.len() implies post.state_entry_ok(j) by {
                assert(pre.state_entry_ok(j));
                if pre.is_state_id(parent as int) && j == pre.vertex_of(parent as int).idx as int {
                    assert(pre.element_ok(parent as int));
                    assert(pre.vertex_entry_ok(pre.idx_of(parent as int)));
                    assert(post.states@[j].dbid == parent);
                    assert forall|k: int|
                        0 <= k < post.states@[j].regions@.len() implies post.region_of_state(
                        post.states@[j].regions@[k] as int,
                        post.states@[j].dbid as int,
                    ) by {
                        if k < pre.states@[j].regions@.len() {
                            assert(pre.region_of_state(
                                pre.states@[j].regions@[k] as int,
                                pre.states@[j].dbid as int,
                            ));
                        } else {
                            assert(post.states@[j].regions@[k] == dbid);
                            assert(post.region_of_state(dbid as int, parent as int));
                        }
                    }
                }
            }
            assert forall|j: int| 0 <= j < post.vertices@.len() implies post.vertex_entry_ok(j) by {
                assert(pre.vertex_entry_ok(j));
            }
            assert forall|j: int|
                0 <= j < post.transitions@.len() implies post.transition_entry_ok(j) by {
                assert(pre.transition_entry_ok(j));
            }
            assert forall|j: int|
                0 <= j < post.event_types@.len() implies post.event_entry_ok(j) by {
                assert(pre.event_entry_ok(j));
            }
            assert(post.wf());
        }
        Ok(dbid)
    }

    /// Record a freshly created region in its container's region list.
    pub(crate) fn add_region_to_container(&mut self, c: Container, region_dbid: usize)
        requires
            match c {
                Container::State(s) => {
                    &&& (s as int) < old(self).elements@.len()
                    &&& old(self).idx_of(s as int) < old(self).vertices@.len()
                    &&& (old(self).vertex_of(s as int).idx as int) < old(self).states@.len()
                },
                Container::StateMachine(m) => true,
            },
        ensures
            final(self).elements == old(self).elements,
            final(self).parents == old(self).parents,
            final(self).names == old(self).names,
            final(self).fullnames == old(self).fullnames,
            final(self).regions == old(self).regions,
            final(self).vertices == old(self).vertices,
            final(self).transitions == old(self).transitions,
            final(self).event_types == old(self).event_types,
            final(self).name == old(self).name,
            final(self).dbid == old(self).dbid,
            match c {
                Container::State(s) => {
                    let si = old(self).vertex_of(s as int).idx as int;
                    &&& final(self).state_machine == old(self).state_machine
                    &&& final(self).states@.len() == old(self).states@.len()
                    &&& forall|j: int|
                        0 <= j < old(self).states@.len() && j != si ==> final(self).states@[j]
                            == old(self).states@[j]
                    &&& final(self).states@[si].regions@ == old(self).states@[si].regions@.push(
                        region_dbid,
                    )
                    &&& final(self).states@[si].dbid == old(self).states@[si].dbid
                    &&& final(self).states@[si].entry == old(self).states@[si].entry
                    &&& final(self).states@[si].exit == old(self).states@[si].exit
                    &&& final(self).states@[si].do_while == old(self).states@[si].do_while
                },
                Container::StateMachine(m) => {
                    &&& final(self).states == old(self).states
                    &&& final(self).state_machine.regions@ == old(
                        self,
                    ).state_machine.regions@.push(region_dbid)
                    &&& final(self).state_machine.name == old(self).state_machine.name
                    &&& final(self).state_machine.dbid == old(self).state_machine.dbid
                },
            },
    {
        match c {
            Container::State(s_dbid) => {
                let s_idx = self.vertices[self.elements[s_dbid].idx].idx;
                self.states[s_idx].add_region(region_dbid);
            },
            Container::StateMachine(_) => {
                self.state_machine.add_region(region_dbid);
            },
        }
    }

    /// Create a vertex of the given kind inside a region. The name must not
    /// collide with any vertex already in the region. An initial pseudostate
    /// becomes the region's default entry and active vertex; so does the
    /// first vertex added to a region, whatever its kind, until an explicit
    /// initial transition overrides it.
    /// Everything a successful `add_vertex` call changes: one vertex element
    /// appended to the arena inside `region` and recorded in that region's
    /// vertex list (becoming its default entry and active vertex when it is
    /// an initial pseudostate or the region's first vertex), a fresh state
    /// record when the vertex is an ordinary state, everything else
    /// untouched.
    pub open spec fn vertex_added(
        pre: Db<G, B>,
        post: Db<G, B>,
        name: Seq<char>,
        region: usize,
        vertex_type: VertexType,
        d: usize,
    ) -> bool {
        let ri = pre.idx_of(region as int);
        let oldsub = pre.region_of(region as int).subvertex@;
        &&& pre.is_region_id(region as int)
        &&& !pre.has_dup(oldsub, name)
        &&& d as int == pre.len()
        &&& post.wf()
        &&& post.len() == pre.len() + 1
        &&& post.elements@ == pre.elements@.push(
            crate::element::Element {
                dbid: d,
                idx: pre.vertices@.len() as usize,
                element_type: ElementType::Vertex(vertex_type),
            },
        )
        &&& post.parents@ == pre.parents@.push(region)
        &&& forall|i: int|
            0 <= i < pre.len() ==> post.names@[i] == pre.names@[i] && post.fullnames@[i]
                == pre.fullnames@[i]
        &&& post.names@[d as int]@ == name
        &&& post.fullnames@[d as int]@ == pre.fullnames@[region as int]@
            + crate::machine::name_sep() + name
        &&& post.kind_of(d as int) == ElementType::Vertex(vertex_type)
        &&& post.parent_of(d as int) == region
        &&& post.vertices@.len() == pre.vertices@.len() + 1
        &&& forall|j: int| 0 <= j < pre.vertices@.len() ==> post.vertices@[j] == pre.vertices@[j]
        &&& post.idx_of(d as int) == pre.vertices@.len()
        &&& post.vertex_of(d as int).name@ == name
        &&& post.vertex_of(d as int).dbid == d
        &&& post.vertex_of(d as int).container == region
        &&& post.vertex_of(d as int).vertex_type == vertex_type
        &&& post.vertex_of(d as int).incoming@ == Seq::<usize>::empty()
        &&& post.vertex_of(d as int).outgoing@ == Seq::<usize>::empty()
        &&& (vertex_type == VertexType::State ==> post.vertex_of(d as int).idx as int
            == pre.states@.len())
        &&& (vertex_type != VertexType::State ==> post.vertex_of(d as int).idx == 0)
        &&& (vertex_type == VertexType::State ==> {
            &&& post.states@.len() == pre.states@.len() + 1
            &&& forall|j: int| 0 <= j < pre.states@.len() ==> post.states@[j] == pre.states@[j]
            &&& post.state_regions(d as int) == Seq::<usize>::empty()
            &&& post.state_of(d as int).dbid == d
            &&& post.state_of(d as int).entry is None
            &&& post.state_of(d as int).exit is None
            &&& post.state_of(d as int).do_while is None
        })
        &&& (vertex_type != VertexType::State ==> post.states == pre.states)
        &&& post.regions@.len() == pre.regions@.len()
        &&& forall|j: int|
            0 <= j < pre.regions@.len() && j != ri ==> post.regions@[j] == pre.regions@[j]
        &&& post.regions@[ri].subvertex@ == oldsub.push(d)
        &&& post.regions@[ri].name == pre.regions@[ri].name
        &&& post.regions@[ri].dbid == pre.regions@[ri].dbid
        &&& post.regions@[ri].container == pre.regions@[ri].container
        &&& ((vertex_type == VertexType::InitialState || oldsub.len() == 0) ==> {
            &&& post.regions@[ri].initial_state == d
            &&& post.regions@[ri].active_state == d
        })
        &&& ((vertex_type != VertexType::InitialState && oldsub.len() > 0) ==> {
            &&& post.regions@[ri].initial_state == pre.regions@[ri].initial_state
            &&& post.regions@[ri].active_state == pre.regions@[ri].active_state
        })
        &&& post.transitions == pre.transitions
        &&& post.event_types == pre.event_types
        &&& post.state_machine == pre.state_machine
        &&& post.name == pre.name
        &&& post.dbid == pre.dbid
    }

    /// Create a vertex of the given kind inside a region. The name must not
    /// collide with any vertex already in the region. An initial pseudostate
    /// becomes the region's default entry and active vertex; so does the
    /// first vertex added to a region, whatever its kind, until an explicit
    /// initial transition overrides it. Nothing here stops a caller from
    /// adding a second, differently named initial pseudostate to the same
    /// region — the later one then overwrites the default entry; only
    /// `initial_transition`, which reuses the first initial pseudostate it
    /// finds, protects a region against a second default entry.
    #[verifier::rlimit(50)]
    pub fn add_vertex(&mut self, name: &str, region: usize, vertex_type: VertexType) -> (r:
        StateMachineResult<usize>)
        requires
            old(self).wf(),
        ensures
            match r {
                Ok(d) => Self::vertex_added(
                    *old(self),
                    *final(self),
                    name@,
                    region,
                    vertex_type,
                    d,
                ),
                Err(e) => {
                    &&& *final(self) == *old(self)
                    &&& !(old(self).is_region_id(region as int) && !old(self).has_dup(
                        old(self).region_of(region as int).subvertex@,
                        name@,
                    ))
                    &&& (!old(self).valid_id(region as int) ==> e == StateMachineError::InvalidDbId(
                        region,
                    ))
                    &&& (old(self).valid_id(region as int) && !old(self).is_region_id(region as int)
                        ==> e == StateMachineError::InvalidRegion(region))
                    &&& (old(self).is_region_id(region as int) ==> (
                    e matches StateMachineError::Duplicate(n) && n@ == name@))
                },
            },
    {
        let r_idx = self.region(region)?;
        proof {
            assert(self.element_ok(region as int));
            assert(self.region_entry_ok(r_idx as int));
            assert forall|k: int|
                0 <= k < self.regions@[r_idx as int].subvertex@.len() implies self.valid_id(
                #[trigger] self.regions@[r_idx as int].subvertex@[k] as int,
            ) by {
                assert(self.vertex_in_region(
                    self.regions@[r_idx as int].subvertex@[k] as int,
                    region as int,
                ));
            }
        }
        self.is_duplicate(name, &self.regions[r_idx].subvertex)?;
        let v_idx = self.vertices.len();
        let dbid = self.new_element(name, region, v_idx, ElementType::Vertex(vertex_type));
        let idx = match vertex_type {
            VertexType::State => {
                let s_idx = self.states.len();
                self.states.push(State::new(dbid));
                s_idx
            },
            VertexType::InitialState => {
                self.regions[r_idx].mark_initial(dbid);
                0
            },
            _ => 0,
        };
        self.vertices.push(VertexDef::new(name, dbid, idx, region, vertex_type));
        if self.regions[r_idx].subvertex.len() == 0 {
            self.regions[r_idx].mark_initial(dbid);
        }
        self.regions[r_idx].push_vertex(dbid);
        proof {
            let pre = *old(self);
            let post = *self;
            let ri = pre.idx_of(region as int);
            let oldsub = pre.region_of(region as int).subvertex@;
            assert forall|i: int| 0 < i < post.len() implies 0 <= #[trigger] post.parent_of(i)
                < i by {
                if i < pre.len() {
                    assert(0 <= pre.parent_of(i) < i);
                }
            }
            assert forall|i: int| 0 <= i < post.len() implies post.element_ok(i) by {
                if i < pre.len() {
                    assert(pre.element_ok(i));
                } else {
                    assert(post.vertices@[post.idx_of(i)].dbid == i);
                }
            }
            assert forall|k: int|
                0 <= k < post.state_machine.regions@.len() implies post.top_region_ok(
                post.state_machine.regions@[k] as int,
            ) by {
                assert(pre.top_region_ok(pre.state_machine.regions@[k] as int));
            }
            assert forall|i: int|
                0 < i < post.len() implies post.fullnames@[i]@ == post.fullnames@[post.parent_of(
                i,
            )]@ + crate::machine::name_sep() + post.names@[i]@ by {
                if i < pre.len() {
                    assert(pre.fullnames@[i]@ == pre.fullnames@[pre.parent_of(i)]@
                        + crate::machine::name_sep() + pre.names@[i]@);
                    assert(0 <= pre.parent_of(i) < i);
                }
            }
            assert forall|j: int| 0 <= j < post.regions@.len() implies post.region_entry_ok(j) by {
                assert(pre.region_entry_ok(j));
                let sub = post.regions@[j].subvertex@;
                let rd = post.regions@[j].dbid as int;
                assert forall|k: int|
                    0 <= k < sub.len() implies post.vertex_in_region(
                    #[trigger] sub[k] as int,
                    rd,
                ) by {
                    if j == ri && k == oldsub.len() {
                        assert(sub[k] == dbid);
                    } else {
                        assert(pre.vertex_in_region(pre.regions@[j].subvertex@[k] as int, rd));
                    }
                }
                assert forall|k1: int, k2: int|
                    0 <= k1 < k2 < sub.len() implies post.vertex_name(sub[k1] as int)
                    != post.vertex_name(sub[k2] as int) by {
                    assert(pre.vertex_in_region(pre.regions@[j].subvertex@[k1] as int, rd));
                    assert(pre.element_ok(sub[k1] as int));
                    assert(pre.vertex_entry_ok(pre.idx_of(sub[k1] as int)));
                    if j == ri && k2 == oldsub.len() {
                        assert(!pre.dup_name_at(oldsub[k1] as int, name@));
                        assert(pre.vertex_name(oldsub[k1] as int) == pre.names@[oldsub[k1] as int]@);
                        assert(post.vertex_name(sub[k2] as int) == name@);
                    } else {
                        assert(pre.vertex_in_region(pre.regions@[j].subvertex@[k2] as int, rd));
                        assert(pre.element_ok(sub[k2] as int));
                        assert(pre.vertex_entry_ok(pre.idx_of(sub[k2] as int)));
                        assert(pre.vertex_name(sub[k1] as int) != pre.vertex_name(sub[k2] as int));
                    }
                }
                if post.regions@[j].initial_state != 0 {
                    if j == ri && post.regions@[j].initial_state == dbid {
                        assert(post.vertex_in_region(dbid as int, rd));
                    } else {
                        assert(pre.vertex_in_region(pre.regions@[j].initial_state as int, rd));
                    }
                }
                if post.regions@[j].active_state != 0 {
                    if j == ri && post.regions@[j].active_state == dbid {
                        assert(post.vertex_in_region(dbid as int, rd));
                    } else {
                        assert(pre.vertex_in_region(pre.regions@[j].active_state as int, rd));
                    }
                }
            }
            assert forall|j: int| 0 <= j < post.states@.len() implies post.state_entry_ok(j) by {
                if j < pre.states@.len() {
                    assert(pre.state_entry_ok(j));
                    assert(pre.element_ok(pre.states@[j].dbid as int));
                    assert(pre.vertex_entry_ok(pre.idx_of(pre.states@[j].dbid as int)));
                } else {
                    assert(post.states@[j].dbid == dbid);
                }
            }
            assert forall|j: int| 0 <= j < post.vertices@.len() implies post.vertex_entry_ok(j) by {
                if j < pre.vertices@.len() {
                    assert(pre.vertex_entry_ok(j));
                } else {
                    assert(post.vertices@[j].dbid == dbid);
                }
            }
            assert forall|j: int|
                0 <= j < post.transitions@.len() implies post.transition_entry_ok(j) by {
                assert(pre.transition_entry_ok(j));
            }
            assert forall|j: int|
                0 <= j < post.event_types@.len() implies post.event_entry_ok(j) by {
                assert(pre.event_entry_ok(j));
            }
            assert(post.wf());
        }
        Ok(dbid)
    }

    /// The vertex kind a substate name selects: the reserved name "initial"
    /// creates an initial pseudostate, every other name an ordinary state.
    pub open spec fn substate_kind(name: Seq<char>) -> VertexType {
        if name == "initial"@ {
            VertexType::InitialState
        } else {
            VertexType::State
        }
    }

    /// When `add_substate` succeeds: the parent exists and is a region, a
    /// state or the state machine; a state parent owns at most one region;
    /// the state machine parent owns exactly one; and the name is free in
    /// the region the vertex lands in.
    pub open spec fn substate_ok_cond(pre: Db<G, B>, parent: usize, name: Seq<char>) -> bool {
        &&& pre.valid_id(parent as int)
        &&& (pre.is_region_id(parent as int) ==> !pre.has_dup(
            pre.region_of(parent as int).subvertex@,
            name,
        ))
        &&& (pre.is_state_id(parent as int) ==> {
            let rc = pre.state_regions(parent as int).len();
            &&& rc <= 1
            &&& (rc == 1 ==> !pre.has_dup(
                pre.region_of(pre.state_regions(parent as int)[0] as int).subvertex@,
                name,
            ))
        })
        &&& (pre.kind_of(parent as int) == ElementType::StateMachine ==> {
            &&& pre.state_machine.regions@.len() == 1
            &&& !pre.has_dup(
                pre.region_of(pre.state_machine.regions@[0] as int).subvertex@,
                name,
            )
        })
        &&& (pre.is_region_id(parent as int) || pre.is_state_id(parent as int) || pre.kind_of(
            parent as int,
        ) == ElementType::StateMachine)
    }

    /// Everything a successful `add_substate` call changes when the parent
    /// state had no region yet: a default region named "region_1" is created
    /// under the state, and the vertex is created inside it, becoming its
    /// default entry and active vertex.
    pub open spec fn substate_into_new_region(
        pre: Db<G, B>,
        post: Db<G, B>,
        name: Seq<char>,
        parent: usize,
        vertex_type: VertexType,
        d: usize,
    ) -> bool {
        let rd = pre.len();
        &&& pre.is_state_id(parent as int)
        &&& pre.state_regions(parent as int).len() == 0
        &&& d as int == pre.len() + 1
        &&& post.wf()
        &&& post.len() == pre.len() + 2
        &&& forall|i: int|
            0 <= i < pre.len() ==> post.elements@[i] == pre.elements@[i] && post.parents@[i]
                == pre.parents@[i] && post.names@[i] == pre.names@[i] && post.fullnames@[i]
                == pre.fullnames@[i]
        &&& post.is_region_id(rd)
        &&& post.parent_of(rd) == parent
        &&& post.names@[rd]@ == "region_1"@
        &&& post.fullnames@[rd]@ == pre.fullnames@[parent as int]@ + crate::machine::name_sep()
            + "region_1"@
        &&& post.region_of(rd).subvertex@ == Seq::<usize>::empty().push(d)
        &&& post.region_of(rd).initial_state == d
        &&& post.region_of(rd).active_state == d
        &&& post.regions@.len() == pre.regions@.len() + 1
        &&& forall|j: int| 0 <= j < pre.regions@.len() ==> post.regions@[j] == pre.regions@[j]
        &&& post.idx_of(rd) == pre.regions@.len()
        &&& post.vertices@.len() == pre.vertices@.len() + 1
        &&& forall|j: int| 0 <= j < pre.vertices@.len() ==> post.vertices@[j] == pre.vertices@[j]
        &&& post.idx_of(d as int) == pre.vertices@.len()
        &&& {
            let si = pre.vertex_of(parent as int).idx as int;
            &&& forall|j: int|
                0 <= j < pre.states@.len() && j != si ==> post.states@[j] == pre.states@[j]
            &&& post.states@[si].dbid == pre.states@[si].dbid
            &&& post.states@[si].entry == pre.states@[si].entry
            &&& post.states@[si].exit == pre.states@[si].exit
            &&& post.states@[si].do_while == pre.states@[si].do_while
        }
        &&& (vertex_type == VertexType::State ==> post.states@.len() == pre.states@.len() + 1)
        &&& (vertex_type != VertexType::State ==> post.states@.len() == pre.states@.len())
        &&& post.state_regions(parent as int).len() == 1
        &&& post.state_regions(parent as int)[0] as int == rd
        &&& (vertex_type == VertexType::State ==> post.vertex_of(d as int).idx as int
            == pre.states@.len())
        &&& post.kind_of(d as int) == ElementType::Vertex(vertex_type)
        &&& post.parent_of(d as int) == rd
        &&& post.names@[d as int]@ == name
        &&& post.fullnames@[d as int]@ == pre.fullnames@[parent as int]@
            + crate::machine::name_sep() + "region_1"@ + crate::machine::name_sep() + name
        &&& post.vertex_of(d as int).incoming@ == Seq::<usize>::empty()
        &&& post.vertex_of(d as int).outgoing@ == Seq::<usize>::empty()
        &&& (vertex_type == VertexType::State ==> post.state_regions(d as int)
            == Seq::<usize>::empty())
        &&& post.transitions == pre.transitions
        &&& post.event_types == pre.event_types
        &&& post.state_machine == pre.state_machine
        &&& post.name == pre.name
        &&& post.dbid == pre.dbid
    }

    /// Add a substate under an existing state, region or the state machine.
    /// A state parent uses its sole region, creating the default "region_1"
    /// when it has none and failing when it has several; the state machine
    /// parent uses its sole top-level region. The reserved name "initial"
    /// creates an initial pseudostate instead of an ordinary state.
    #[verifier::rlimit(50)]
    pub fn add_substate(&mut self, name: &str, parent: usize) -> (r: StateMachineResult<usize>)
        requires
            old(self).wf(),
        ensures
            r is Ok <==> Self::substate_ok_cond(*old(self), parent, name@),
            match r {
                Ok(d) => {
                    let pre = *old(self);
                    let post = *final(self);
                    let vt = Self::substate_kind(name@);
                    &&& post.wf()
                    &&& (pre.is_region_id(parent as int) ==> Self::vertex_added(
                        pre,
                        post,
                        name@,
                        parent,
                        vt,
                        d,
                    ))
                    &&& (pre.is_state_id(parent as int) && pre.state_regions(parent as int).len()
                        == 1 ==> Self::vertex_added(
                        pre,
                        post,
                        name@,
                        pre.state_regions(parent as int)[0],
                        vt,
                        d,
                    ))
                    &&& (pre.is_state_id(parent as int) && pre.state_regions(parent as int).len()
                        == 0 ==> Self::substate_into_new_region(pre, post, name@, parent, vt, d))
                    &&& (pre.kind_of(parent as int) == ElementType::StateMachine
                        ==> Self::vertex_added(
                        pre,
                        post,
                        name@,
                        pre.state_machine.regions@[0],
                        vt,
                        d,
                    ))
                },
                Err(e) => {
                    let pre = *old(self);
                    &&& *final(self) == pre
                    &&& (!pre.valid_id(parent as int) ==> e == StateMachineError::InvalidDbId(
                        parent,
                    ))
                    &&& (pre.valid_id(parent as int) && !pre.is_region_id(parent as int)
                        && !pre.is_state_id(parent as int) && pre.kind_of(parent as int)
                        != ElementType::StateMachine ==> e == StateMachineError::CannotAddState(
                        parent,
                    ))
                    &&& (pre.is_state_id(parent as int) && pre.state_regions(parent as int).len()
                        > 1 ==> e == StateMachineError::ContainsMultipleRegions(parent))
                    &&& (pre.is_state_id(parent as int) && pre.state_regions(parent as int).len()
                        == 1 ==> (e matches StateMachineError::Duplicate(n) && n@ == name@))
                    &&& (pre.is_region_id(parent as int) ==> (
                    e matches StateMachineError::Duplicate(n) && n@ == name@))
                    &&& (pre.valid_id(parent as int) && pre.kind_of(parent as int)
                        == ElementType::StateMachine && pre.state_machine.regions@.len() > 1 ==> e
                        == StateMachineError::ContainsMultipleRegions(pre.state_machine.dbid))
                    &&& (pre.valid_id(parent as int) && pre.kind_of(parent as int)
                        == ElementType::StateMachine && pre.state_machine.regions@.len() == 1 ==> (
                    e matches StateMachineError::Duplicate(n) && n@ == name@))
                },
            },
    {
        let p_ele = self.element(parent)?;
        proof {
            assert(self.element_ok(parent as int));
        }
        let vertex_type = if crate::machine::str_is(name, "initial") {
            VertexType::InitialState
        } else {
            VertexType::State
        };
        let r_dbid = match p_ele.element_type {
            ElementType::Vertex(VertexType::State) => {
                let p_state_idx = self.get_state_by_ele(p_ele)?;
                proof {
                    assert(self.vertex_entry_ok(self.idx_of(parent as int)));
                    assert(self.state_entry_ok(p_state_idx as int));
                }
                match self.states[p_state_idx].get_only_region()? {
                    Some(rd) => rd,
                    None => {
                        match self.add_region("region_1", parent) {
                            Ok(rd) => rd,
                            Err(_) => {
                                proof {
                                    assert(false);
                                }
                                vstd::pervasive::unreached()
                            },
                        }
                    },
                }
            },
            ElementType::Region => parent,
            ElementType::StateMachine => {
                match self.state_machine.get_only_region()? {
                    Some(rd) => rd,
                    None => {
                        proof {
                            assert(false);
                        }
                        vstd::pervasive::unreached()
                    },
                }
            },
            _ => {
                return Err(StateMachineError::CannotAddState(parent));
            },
        };
        let ghost mid = *self;
        proof {
            if old(self).is_state_id(parent as int) && old(self).state_regions(
                parent as int,
            ).len() == 1 {
                assert(old(self).region_of_state(r_dbid as int, parent as int));
            }
            if old(self).kind_of(parent as int) == ElementType::StateMachine {
                assert(old(self).top_region_ok(r_dbid as int));
            }
        }
        let d = self.add_vertex(name, r_dbid, vertex_type)?;
        proof {
            let pre = *old(self);
            let post = *self;
            if pre.is_state_id(parent as int) && pre.state_regions(parent as int).len() == 0 {
                assert(Self::region_added(pre, mid, "region_1"@, parent, r_dbid));
                assert(Self::vertex_added(mid, post, name@, r_dbid, vertex_type, d));
                let rd = pre.len();
                assert(r_dbid as int == rd);
                assert(d as int == pre.len() + 1);
                assert(post.len() == pre.len() + 2);
                assert forall|i: int|
                    0 <= i < pre.len() implies post.elements@[i] == pre.elements@[i]
                    && post.parents@[i] == pre.parents@[i] && post.names@[i] == pre.names@[i]
                    && post.fullnames@[i] == pre.fullnames@[i] by {
                    assert(mid.names@[i] == pre.names@[i]);
                    assert(post.names@[i] == mid.names@[i]);
                    assert(mid.fullnames@[i] == pre.fullnames@[i]);
                    assert(post.fullnames@[i] == mid.fullnames@[i]);
                }
                assert(post.elements@[rd] == mid.elements@[rd]);
                assert(post.is_region_id(rd));
                assert(post.parent_of(rd) == parent);
                assert(post.names@[rd] == mid.names@[rd]);
                assert(post.names@[rd]@ == "region_1"@);
                assert(post.fullnames@[rd]@ == pre.fullnames@[parent as int]@
                    + crate::machine::name_sep() + "region_1"@);
                assert(post.idx_of(rd) == mid.idx_of(rd));
                assert(mid.region_of(rd).subvertex@ == Seq::<usize>::empty());
                assert(post.region_of(rd).subvertex@ == Seq::<usize>::empty().push(d));
                assert(post.region_of(rd).initial_state == d);
                assert(post.region_of(rd).active_state == d);
                assert(post.state_regions(parent as int)
                    == pre.state_regions(parent as int).push(r_dbid));
                assert(post.state_regions(parent as int).len() == 1);
                assert(post.state_regions(parent as int)[0] as int == rd);
                assert(post.kind_of(d as int) == ElementType::Vertex(vertex_type));
                assert(post.parent_of(d as int) == rd);
                assert(post.names@[d as int]@ == name@);
                assert(post.fullnames@[d as int]@ == mid.fullnames@[r_dbid as int]@
                    + crate::machine::name_sep() + name@);
                assert(post.fullnames@[d as int]@ == pre.fullnames@[parent as int]@
                    + crate::machine::name_sep() + "region_1"@ + crate::machine::name_sep()
                    + name@);
                assert(Self::substate_into_new_region(
                    pre,
                    post,
                    name@,
                    parent,
                    vertex_type,
                    d,
                ));
            }
        }
        Ok(d)
    }

    /// Add a state directly to the state machine, through its sole top-level
    /// region.
    pub fn add_state(&mut self, name: &str) -> (r: StateMachineResult<usize>)
        requires
            old(self).wf(),
        ensures
            r is Ok <==> Self::substate_ok_cond(
                *old(self),
                old(self).state_machine.dbid,
                name@,
            ),
            match r {
                Ok(d) => {
                    let pre = *old(self);
                    let post = *final(self);
                    &&& post.wf()
                    &&& Self::vertex_added(
                        pre,
                        post,
                        name@,
                        pre.state_machine.regions@[0],
                        Self::substate_kind(name@),
                        d,
                    )
                },
                Err(e) => {
                    let pre = *old(self);
                    &&& *final(self) == pre
                    &&& (pre.state_machine.regions@.len() > 1 ==> e
                        == StateMachineError::ContainsMultipleRegions(pre.state_machine.dbid))
                    &&& (pre.state_machine.regions@.len() == 1 ==> (
                    e matches StateMachineError::Duplicate(n) && n@ == name@))
                },
            },
    {
        let parent = self.state_machine.dbid;
        self.add_substate(name, parent)
    }

    /// Add a top-level region to the state machine. When the model still
    /// holds nothing but the state machine and its default region, and that
    /// region still carries the default name, the call renames the default
    /// region in place instead of creating a second one; otherwise a
    /// genuinely new region is created.
    #[verifier::rlimit(50)]
    pub fn add_sm_region(&mut self, name: &str) -> (r: StateMachineResult<usize>)
        requires
            old(self).wf(),
        ensures
            old(self).len() == 2 && old(self).regions@[0].name@ == "region_1"@ ==> {
                &&& r == Ok::<usize, StateMachineError>(1usize)
                &&& final(self).wf()
                &&& final(self).len() == 2
                &&& final(self).names@[1]@ == name@
                &&& final(self).fullnames@[1]@ == old(self).fullnames@[0]@
                    + crate::machine::name_sep() + name@
                &&& final(self).names@[0] == old(self).names@[0]
                &&& final(self).regions@.len() == old(self).regions@.len()
                &&& final(self).regions@[0].name@ == name@
                &&& final(self).regions@[0].dbid == old(self).regions@[0].dbid
                &&& final(self).regions@[0].container == old(self).regions@[0].container
                &&& final(self).regions@[0].subvertex == old(self).regions@[0].subvertex
                &&& final(self).regions@[0].initial_state == old(self).regions@[0].initial_state
                &&& final(self).regions@[0].active_state == old(self).regions@[0].active_state
                &&& final(self).elements == old(self).elements
                &&& final(self).parents == old(self).parents
                &&& final(self).state_machine == old(self).state_machine
                &&& final(self).states == old(self).states
                &&& final(self).vertices == old(self).vertices
                &&& final(self).transitions == old(self).transitions
                &&& final(self).event_types == old(self).event_types
            },
            !(old(self).len() == 2 && old(self).regions@[0].name@ == "region_1"@) ==> match r {
                Ok(d) => Self::region_added(*old(self), *final(self), name@, old(self).dbid, d),
                Err(e) => *final(self) == *old(self),
            },
            !(old(self).len() == 2 && old(self).regions@[0].name@ == "region_1"@) ==> r is Ok,
    {
        proof {
            assert(old(self).top_region_ok(old(self).state_machine.regions@[0] as int));
            assert(old(self).element_ok(old(self).state_machine.regions@[0] as int));
            assert(old(self).regions@.len() >= 1);
        }
        let dbid = self.elements.len();
        if dbid == 2 && str_eq(&self.regions[0].name, "region_1") {
            proof {
                assert(old(self).region_entry_ok(0));
                assert(old(self).element_ok(1));
                assert(old(self).idx_of(1) == 0);
                if old(self).regions@.len() > 1 {
                    assert(old(self).region_entry_ok(1));
                    assert(old(self).element_ok(old(self).regions@[1].dbid as int));
                    assert(false);
                }
                if old(self).regions@[0].subvertex@.len() > 0 {
                    assert(old(self).vertex_in_region(
                        old(self).regions@[0].subvertex@[0] as int,
                        old(self).regions@[0].dbid as int,
                    ));
                    assert(false);
                }
            }
            self.rename(1, name);
            self.regions[0].set_name(name);
            proof {
                let pre = *old(self);
                let post = *self;
                assert forall|i: int| 0 <= i < post.len() implies post.element_ok(i) by {
                    assert(pre.element_ok(i));
                }
                assert forall|j: int|
                    0 <= j < post.regions@.len() implies post.region_entry_ok(j) by {
                    assert(pre.region_entry_ok(j));
                    assert(j == 0);
                    assert(post.regions@[0].subvertex@.len() == 0);
                }
                assert forall|j: int| 0 <= j < post.states@.len() implies post.state_entry_ok(
                    j,
                ) by {
                    assert(pre.state_entry_ok(j));
                    assert(false);
                }
                assert forall|j: int|
                    0 <= j < post.vertices@.len() implies post.vertex_entry_ok(j) by {
                    assert(pre.vertex_entry_ok(j));
                    assert(false);
                }
                assert forall|j: int|
                    0 <= j < post.transitions@.len() implies post.transition_entry_ok(j) by {
                    assert(pre.transition_entry_ok(j));
                    assert(false);
                }
                assert forall|j: int|
                    0 <= j < post.event_types@.len() implies post.event_entry_ok(j) by {
                    assert(pre.event_entry_ok(j));
                    assert(false);
                }
                assert forall|k: int|
                    0 <= k < post.state_machine.regions@.len() implies post.top_region_ok(
                    post.state_machine.regions@[k] as int,
                ) by {
                    assert(pre.top_region_ok(pre.state_machine.regions@[k] as int));
                }
                assert forall|i: int|
                    0 < i < post.len() implies post.fullnames@[i]@ == post.fullnames@[post.parent_of(
                    i,
                )]@ + crate::machine::name_sep() + post.names@[i]@ by {
                    assert(i == 1);
                }
                assert(post.wf());
            }
            return Ok(1);
        }
        proof {
            if old(self).len() == 2 {
                assert(old(self).region_entry_ok(0));
            }
        }
        self.add_region(name, self.state_machine.dbid)
    }

    /// Everything a successful `add_transition` call changes: one transition
    /// element appended to the arena under the source's region, recorded in
    /// the source's outgoing list and the target's incoming list, everything
    /// else untouched.
    pub open spec fn transition_added(
        pre: Db<G, B>,
        post: Db<G, B>,
        name: Seq<char>,
        trigger: Option<usize>,
        source: usize,
        target: usize,
        effect: crate::action::OptBehavior<B>,
        guard: crate::action::OptGuard<G>,
        d: usize,
    ) -> bool {
        let si = pre.idx_of(source as int);
        let ti = pre.idx_of(target as int);
        &&& pre.is_vertex_id(source as int)
        &&& pre.is_vertex_id(target as int)
        &&& !pre.has_dup(pre.vertex_of(source as int).outgoing@, name)
        &&& !pre.has_dup(pre.vertex_of(target as int).incoming@, name)
        &&& d as int == pre.len()
        &&& post.wf()
        &&& post.len() == pre.len() + 1
        &&& post.elements@ == pre.elements@.push(
            crate::element::Element {
                dbid: d,
                idx: pre.transitions@.len() as usize,
                element_type: ElementType::Transition,
            },
        )
        &&& post.parents@ == pre.parents@.push(pre.vertex_of(source as int).container)
        &&& forall|i: int|
            0 <= i < pre.len() ==> post.names@[i] == pre.names@[i] && post.fullnames@[i]
                == pre.fullnames@[i]
        &&& post.names@[d as int]@ == name
        &&& post.kind_of(d as int) == ElementType::Transition
        &&& post.transitions@.len() == pre.transitions@.len() + 1
        &&& forall|j: int|
            0 <= j < pre.transitions@.len() ==> post.transitions@[j] == pre.transitions@[j]
        &&& post.idx_of(d as int) == pre.transitions@.len()
        &&& post.transition_of(d as int).name@ == name
        &&& post.transition_of(d as int).dbid == d
        &&& post.transition_of(d as int).trigger == trigger
        &&& post.transition_of(d as int).source == source
        &&& post.transition_of(d as int).target == target
        &&& post.transition_of(d as int).effect == effect
        &&& post.transition_of(d as int).guard == guard
        &&& post.vertices@.len() == pre.vertices@.len()
        &&& forall|j: int|
            #![trigger pre.vertices@[j]]
            0 <= j < pre.vertices@.len() ==> {
                let v0 = pre.vertices@[j];
                let v1 = post.vertices@[j];
                &&& v1.outgoing@ == (if j == si {
                    v0.outgoing@.push(d)
                } else {
                    v0.outgoing@
                })
                &&& v1.incoming@ == (if j == ti {
                    v0.incoming@.push(d)
                } else {
                    v0.incoming@
                })
                &&& v1.name == v0.name
                &&& v1.dbid == v0.dbid
                &&& v1.idx == v0.idx
                &&& v1.vertex_type == v0.vertex_type
                &&& v1.container == v0.container
            }
        &&& post.regions == pre.regions
        &&& post.states == pre.states
        &&& post.event_types == pre.event_types
        &&& post.state_machine == pre.state_machine
        &&& post.name == pre.name
        &&& post.dbid == pre.dbid
    }

    /// Add a transition between two vertices. The name must be unique both
    /// among the outgoing transitions of the source and among the incoming
    /// transitions of the target; the transition hangs under the region
    /// containing its source.
    #[verifier::rlimit(50)]
    pub fn add_transition(
        &mut self,
        name: &str,
        trigger: Option<usize>,
        source: usize,
        target: usize,
        effect: crate::action::OptEffect<B>,
        guard: crate::action::OptGuard<G>,
    ) -> (r: StateMachineResult<usize>)
        requires
            old(self).wf(),
            guard matches crate::action::OptGuard::Guard(g) ==> call_requires(g.func, ()),
            effect matches crate::action::OptBehavior::Behavior(b) ==> call_requires(b.func, ()),
        ensures
            r is Ok <==> (old(self).is_vertex_id(source as int) && !old(self).has_dup(
                old(self).vertex_of(source as int).outgoing@,
                name@,
            ) && old(self).is_vertex_id(target as int) && !old(self).has_dup(
                old(self).vertex_of(target as int).incoming@,
                name@,
            )),
            match r {
                Ok(d) => Self::transition_added(
                    *old(self),
                    *final(self),
                    name@,
                    trigger,
                    source,
                    target,
                    effect,
                    guard,
                    d,
                ),
                Err(e) => {
                    let pre = *old(self);
                    &&& *final(self) == pre
                    &&& (!pre.valid_id(source as int) ==> e == StateMachineError::InvalidDbId(
                        source,
                    ))
                    &&& (pre.valid_id(source as int) && !pre.is_vertex_id(source as int) ==> e
                        == StateMachineError::InvalidVertex(source))
                    &&& (pre.is_vertex_id(source as int) && pre.has_dup(
                        pre.vertex_of(source as int).outgoing@,
                        name@,
                    ) ==> (e matches StateMachineError::Duplicate(n) && n@ == name@))
                    &&& (pre.is_vertex_id(source as int) && !pre.has_dup(
                        pre.vertex_of(source as int).outgoing@,
                        name@,
                    ) && !pre.valid_id(target as int) ==> e == StateMachineError::InvalidDbId(
                        target,
                    ))
                    &&& (pre.is_vertex_id(source as int) && !pre.has_dup(
                        pre.vertex_of(source as int).outgoing@,
                        name@,
                    ) && pre.valid_id(target as int) && !pre.is_vertex_id(target as int) ==> e
                        == StateMachineError::InvalidVertex(target))
                    &&& (pre.is_vertex_id(source as int) && !pre.has_dup(
                        pre.vertex_of(source as int).outgoing@,
                        name@,
                    ) && pre.is_vertex_id(target as int) && pre.has_dup(
                        pre.vertex_of(target as int).incoming@,
                        name@,
                    ) ==> (e matches StateMachineError::Duplicate(n) && n@ == name@))
                },
            },
    {
        let parent = self.vertex_def(source)?.container;
        let source_idx = self.vertex(source)?;
        proof {
            assert(self.element_ok(source as int));
            assert(self.vertex_entry_ok(source_idx as int));
            assert forall|k: int|
                0 <= k < self.vertices@[source_idx as int].outgoing@.len() implies self.valid_id(
                #[trigger] self.vertices@[source_idx as int].outgoing@[k] as int,
            ) by {
                assert(self.is_transition_id(
                    self.vertices@[source_idx as int].outgoing@[k] as int,
                ));
            }
        }
        self.is_duplicate(name, &self.vertices[source_idx].outgoing)?;
        let target_idx = self.vertex(target)?;
        proof {
            assert(self.element_ok(target as int));
            assert(self.vertex_entry_ok(target_idx as int));
            assert forall|k: int|
                0 <= k < self.vertices@[target_idx as int].incoming@.len() implies self.valid_id(
                #[trigger] self.vertices@[target_idx as int].incoming@[k] as int,
            ) by {
                assert(self.is_transition_id(
                    self.vertices@[target_idx as int].incoming@[k] as int,
                ));
            }
        }
        self.is_duplicate(name, &self.vertices[target_idx].incoming)?;
        let t_idx = self.transitions.len();
        let dbid = self.new_element(name, parent, t_idx, ElementType::Transition);
        self.vertices[source_idx].push_outgoing(dbid);
        self.vertices[target_idx].push_incoming(dbid);
        self.transitions.push(
            crate::transition::Transition::new(name, dbid, trigger, source, target, effect, guard),
        );
        proof {
            let pre = *old(self);
            let post = *self;
            let si = pre.idx_of(source as int);
            let ti = pre.idx_of(target as int);
            assert forall|i: int| 0 < i < post.len() implies 0 <= #[trigger] post.parent_of(i)
                < i by {
                if i < pre.len() {
                    assert(0 <= pre.parent_of(i) < i);
                } else {
                    assert(pre.is_region_id(parent as int));
                }
            }
            assert forall|i: int| 0 <= i < post.len() implies post.element_ok(i) by {
                if i < pre.len() {
                    assert(pre.element_ok(i));
                } else {
                    assert(post.transitions@[post.idx_of(i)].dbid == i);
                }
            }
            assert forall|k: int|
                0 <= k < post.state_machine.regions@.len() implies post.top_region_ok(
                post.state_machine.regions@[k] as int,
            ) by {
                assert(pre.top_region_ok(pre.state_machine.regions@[k] as int));
            }
            assert forall|i: int|
                0 < i < post.len() implies post.fullnames@[i]@ == post.fullnames@[post.parent_of(
                i,
            )]@ + crate::machine::name_sep() + post.names@[i]@ by {
                if i < pre.len() {
                    assert(pre.fullnames@[i]@ == pre.fullnames@[pre.parent_of(i)]@
                        + crate::machine::name_sep() + pre.names@[i]@);
                    assert(0 <= pre.parent_of(i) < i);
                }
            }
            assert forall|j: int| 0 <= j < post.regions@.len() implies post.region_entry_ok(j) by {
                assert(pre.region_entry_ok(j));
                let sub = post.regions@[j].subvertex@;
                let rd = post.regions@[j].dbid as int;
                assert forall|k: int|
                    0 <= k < sub.len() implies post.vertex_in_region(#[trigger] sub[k] as int, rd) by {
                    assert(pre.vertex_in_region(pre.regions@[j].subvertex@[k] as int, rd));
                }
                assert forall|k1: int, k2: int|
                    0 <= k1 < k2 < sub.len() implies post.vertex_name(sub[k1] as int)
                    != post.vertex_name(sub[k2] as int) by {
                    assert(pre.vertex_in_region(pre.regions@[j].subvertex@[k1] as int, rd));
                    assert(pre.vertex_in_region(pre.regions@[j].subvertex@[k2] as int, rd));
                    assert(pre.element_ok(sub[k1] as int));
                    assert(pre.element_ok(sub[k2] as int));
                    assert(pre.vertex_name(sub[k1] as int) != pre.vertex_name(sub[k2] as int));
                    assert(post.vertex_name(sub[k1] as int) == pre.vertex_name(sub[k1] as int));
                    assert(post.vertex_name(sub[k2] as int) == pre.vertex_name(sub[k2] as int));
                }
                if post.regions@[j].initial_state != 0 {
                    assert(pre.vertex_in_region(pre.regions@[j].initial_state as int, rd));
                }
                if post.regions@[j].active_state != 0 {
                    assert(pre.vertex_in_region(pre.regions@[j].active_state as int, rd));
                }
            }
            assert forall|j: int| 0 <= j < post.states@.len() implies post.state_entry_ok(j) by {
                assert(pre.state_entry_ok(j));
                assert(pre.element_ok(pre.states@[j].dbid as int));
                assert(pre.vertex_entry_ok(pre.idx_of(pre.states@[j].dbid as int)));
            }
            assert forall|j: int| 0 <= j < post.vertices@.len() implies post.vertex_entry_ok(j) by {
                assert(pre.vertex_entry_ok(j));
                let v1 = post.vertices@[j];
                let dv = v1.dbid as int;
                assert forall|k: int|
                    0 <= k < v1.outgoing@.len() implies post.is_transition_id(
                    #[trigger] v1.outgoing@[k] as int,
                ) && post.transition_of(v1.outgoing@[k] as int).source == dv by {
                    if j == si && k == pre.vertices@[j].outgoing@.len() {
                        assert(v1.outgoing@[k] == dbid);
                    } else {
                        assert(pre.is_transition_id(pre.vertices@[j].outgoing@[k] as int));
                        assert(pre.element_ok(pre.vertices@[j].outgoing@[k] as int));
                    }
                }
                assert forall|k: int|
                    0 <= k < v1.incoming@.len() implies post.is_transition_id(
                    #[trigger] v1.incoming@[k] as int,
                ) && post.transition_of(v1.incoming@[k] as int).target == dv by {
                    if j == ti && k == pre.vertices@[j].incoming@.len() {
                        assert(v1.incoming@[k] == dbid);
                    } else {
                        assert(pre.is_transition_id(pre.vertices@[j].incoming@[k] as int));
                        assert(pre.element_ok(pre.vertices@[j].incoming@[k] as int));
                    }
                }
                assert forall|k1: int, k2: int|
                    0 <= k1 < k2 < v1.outgoing@.len() implies post.transition_name(
                    v1.outgoing@[k1] as int,
                ) != post.transition_name(v1.outgoing@[k2] as int) by {
                    assert(pre.is_transition_id(pre.vertices@[j].outgoing@[k1] as int));
                    assert(pre.element_ok(v1.outgoing@[k1] as int));
                    assert(pre.transition_entry_ok(pre.idx_of(v1.outgoing@[k1] as int)));
                    if j == si && k2 == pre.vertices@[j].outgoing@.len() {
                        assert(!pre.dup_name_at(v1.outgoing@[k1] as int, name@));
                        assert(post.transition_name(v1.outgoing@[k2] as int) == name@);
                    } else {
                        assert(pre.is_transition_id(pre.vertices@[j].outgoing@[k2] as int));
                        assert(pre.element_ok(v1.outgoing@[k2] as int));
                        assert(pre.transition_entry_ok(pre.idx_of(v1.outgoing@[k2] as int)));
                        assert(pre.transition_name(v1.outgoing@[k1] as int) != pre.transition_name(
                            v1.outgoing@[k2] as int,
                        ));
                    }
                }
                assert forall|k1: int, k2: int|
                    0 <= k1 < k2 < v1.incoming@.len() implies post.transition_name(
                    v1.incoming@[k1] as int,
                ) != post.transition_name(v1.incoming@[k2] as int) by {
                    assert(pre.is_transition_id(pre.vertices@[j].incoming@[k1] as int));
                    assert(pre.element_ok(v1.incoming@[k1] as int));
                    assert(pre.transition_entry_ok(pre.idx_of(v1.incoming@[k1] as int)));
                    if j == ti && k2 == pre.vertices@[j].incoming@.len() {
                        assert(!pre.dup_name_at(v1.incoming@[k1] as int, name@));
                        assert(post.transition_name(v1.incoming@[k2] as int) == name@);
                    } else {
                        assert(pre.is_transition_id(pre.vertices@[j].incoming@[k2] as int));
                        assert(pre.element_ok(v1.incoming@[k2] as int));
                        assert(pre.transition_entry_ok(pre.idx_of(v1.incoming@[k2] as int)));
                        assert(pre.transition_name(v1.incoming@[k1] as int) != pre.transition_name(
                            v1.incoming@[k2] as int,
                        ));
                    }
                }
            }
            assert forall|j: int|
                0 <= j < post.transitions@.len() implies post.transition_entry_ok(j) by {
                if j < pre.transitions@.len() {
                    assert(pre.transition_entry_ok(j));
                } else {
                    assert(post.transitions@[j].dbid == dbid);
                    assert(pre.is_region_id(parent as int));
                }
            }
            assert forall|j: int|
                0 <= j < post.event_types@.len() implies post.event_entry_ok(j) by {
                assert(pre.event_entry_ok(j));
            }
            assert(post.wf());
        }
        Ok(dbid)
    }

    /// Register a named event type on the model; the name must differ from
    /// every event type already declared.
    #[verifier::rlimit(50)]
    pub fn add_event_type(&mut self, name: &str) -> (r: StateMachineResult<usize>)
        requires
            old(self).wf(),
        ensures
            r is Ok <==> !(exists|j: int|
                0 <= j < old(self).event_types@.len() && old(self).event_types@[j].name@ == name@),
            match r {
                Ok(d) => {
                    let pre = *old(self);
                    let post = *final(self);
                    &&& d as int == pre.len()
                    &&& post.wf()
                    &&& post.len() == pre.len() + 1
                    &&& post.elements@ == pre.elements@.push(
                        crate::element::Element {
                            dbid: d,
                            idx: pre.event_types@.len() as usize,
                            element_type: ElementType::EventType,
                        },
                    )
                    &&& post.parents@ == pre.parents@.push(0usize)
                    &&& forall|i: int|
                        0 <= i < pre.len() ==> post.names@[i] == pre.names@[i]
                            && post.fullnames@[i] == pre.fullnames@[i]
                    &&& post.names@[d as int]@ == name@
                    &&& post.kind_of(d as int) == ElementType::EventType
                    &&& post.event_types@.len() == pre.event_types@.len() + 1
                    &&& forall|j: int|
                        0 <= j < pre.event_types@.len() ==> post.event_types@[j]
                            == pre.event_types@[j]
                    &&& post.idx_of(d as int) == pre.event_types@.len()
                    &&& post.event_types@[pre.event_types@.len() as int].name@ == name@
                    &&& post.event_types@[pre.event_types@.len() as int].dbid == d
                    &&& post.regions == pre.regions
                    &&& post.states == pre.states
                    &&& post.vertices == pre.vertices
                    &&& post.transitions == pre.transitions
                    &&& post.state_machine == pre.state_machine
                    &&& post.name == pre.name
                    &&& post.dbid == pre.dbid
                },
                Err(e) => {
                    &&& *final(self) == *old(self)
                    &&& (e matches StateMachineError::Duplicate(n) && n@ == name@)
                },
            },
    {
        let e_idx = self.event_types.len();
        let mut x: Vec<usize> = Vec::new();
        let mut j: usize = 0;
        while j < self.event_types.len()
            invariant
                self.wf(),
                j <= self.event_types@.len(),
                x@.len() == j as int,
                forall|i: int| 0 <= i < j as int ==> x@[i] == self.event_types@[i].dbid,
            decreases self.event_types@.len() - j,
        {
            x.push(self.event_types[j].dbid);
            j += 1;
        }
        proof {
            assert forall|k: int| 0 <= k < x@.len() implies self.valid_id(
                #[trigger] x@[k] as int,
            ) by {
                assert(self.event_entry_ok(k));
            }
            if self.has_dup(x@, name@) {
                let k = choose|k: int| 0 <= k < x@.len() && self.dup_name_at(x@[k] as int, name@);
                assert(self.event_entry_ok(k));
                assert(self.event_types@[k].name@ == name@);
            }
            if exists|j: int|
                0 <= j < self.event_types@.len() && self.event_types@[j].name@ == name@ {
                let k = choose|k: int|
                    0 <= k < self.event_types@.len() && self.event_types@[k].name@ == name@;
                assert(self.event_entry_ok(k));
                assert(self.dup_name_at(x@[k] as int, name@));
                assert(self.has_dup(x@, name@));
            }
        }
        self.is_duplicate(name, &x)?;
        let dbid = self.new_element(name, 0, e_idx, ElementType::EventType);
        self.event_types.push(crate::stores::EventType::new(name, dbid));
        proof {
            let pre = *old(self);
            let post = *self;
            assert forall|i: int| 0 < i < post.len() implies 0 <= #[trigger] post.parent_of(i)
                < i by {
                if i < pre.len() {
                    assert(0 <= pre.parent_of(i) < i);
                }
            }
            assert forall|i: int| 0 <= i < post.len() implies post.element_ok(i) by {
                if i < pre.len() {
                    assert(pre.element_ok(i));
                } else {
                    assert(post.event_types@[post.idx_of(i)].dbid == i);
                }
            }
            assert forall|k: int|
                0 <= k < post.state_machine.regions@.len() implies post.top_region_ok(
                post.state_machine.regions@[k] as int,
            ) by {
                assert(pre.top_region_ok(pre.state_machine.regions@[k] as int));
            }
            assert forall|i: int|
                0 < i < post.len() implies post.fullnames@[i]@ == post.fullnames@[post.parent_of(
                i,
            )]@ + crate::machine::name_sep() + post.names@[i]@ by {
                if i < pre.len() {
                    assert(pre.fullnames@[i]@ == pre.fullnames@[pre.parent_of(i)]@
                        + crate::machine::name_sep() + pre.names@[i]@);
                    assert(0 <= pre.parent_of(i) < i);
                }
            }
            assert forall|j2: int| 0 <= j2 < post.regions@.len() implies post.region_entry_ok(
                j2,
            ) by {
                assert(pre.region_entry_ok(j2));
                let sub = post.regions@[j2].subvertex@;
                let rd = post.regions@[j2].dbid as int;
                assert forall|k1: int, k2: int|
                    0 <= k1 < k2 < sub.len() implies post.vertex_name(sub[k1] as int)
                    != post.vertex_name(sub[k2] as int) by {
                    assert(pre.vertex_in_region(pre.regions@[j2].subvertex@[k1] as int, rd));
                    assert(pre.vertex_in_region(pre.regions@[j2].subvertex@[k2] as int, rd));
                    assert(pre.element_ok(sub[k1] as int));
                    assert(pre.element_ok(sub[k2] as int));
                    assert(pre.vertex_name(sub[k1] as int) != pre.vertex_name(sub[k2] as int));
                }
            }
            assert forall|j2: int| 0 <= j2 < post.states@.len() implies post.state_entry_ok(
                j2,
            ) by {
                assert(pre.state_entry_ok(j2));
                assert(pre.element_ok(pre.states@[j2].dbid as int));
                assert(pre.vertex_entry_ok(pre.idx_of(pre.states@[j2].dbid as int)));
            }
            assert forall|j2: int| 0 <= j2 < post.vertices@.len() implies post.vertex_entry_ok(
                j2,
            ) by {
                assert(pre.vertex_entry_ok(j2));
                let v1 = post.vertices@[j2];
                assert forall|k1: int, k2: int|
                    0 <= k1 < k2 < v1.outgoing@.len() implies post.transition_name(
                    v1.outgoing@[k1] as int,
                ) != post.transition_name(v1.outgoing@[k2] as int) by {
                    assert(pre.is_transition_id(pre.vertices@[j2].outgoing@[k1] as int));
                    assert(pre.is_transition_id(pre.vertices@[j2].outgoing@[k2] as int));
                    assert(pre.element_ok(v1.outgoing@[k1] as int));
                    assert(pre.element_ok(v1.outgoing@[k2] as int));
                    assert(pre.transition_name(v1.outgoing@[k1] as int) != pre.transition_name(
                        v1.outgoing@[k2] as int,
                    ));
                }
                assert forall|k1: int, k2: int|
                    0 <= k1 < k2 < v1.incoming@.len() implies post.transition_name(
                    v1.incoming@[k1] as int,
                ) != post.transition_name(v1.incoming@[k2] as int) by {
                    assert(pre.is_transition_id(pre.vertices@[j2].incoming@[k1] as int));
                    assert(pre.is_transition_id(pre.vertices@[j2].incoming@[k2] as int));
                    assert(pre.element_ok(v1.incoming@[k1] as int));
                    assert(pre.element_ok(v1.incoming@[k2] as int));
                    assert(pre.transition_name(v1.incoming@[k1] as int) != pre.transition_name(
                        v1.incoming@[k2] as int,
                    ));
                }
            }
            assert forall|j2: int|
                0 <= j2 < post.transitions@.len() implies post.transition_entry_ok(j2) by {
                assert(pre.transition_entry_ok(j2));
            }
            assert forall|j2: int|
                0 <= j2 < post.event_types@.len() implies post.event_entry_ok(j2) by {
                if j2 < pre.event_types@.len() {
                    assert(pre.event_entry_ok(j2));
                } else {
                    assert(post.event_types@[j2].dbid == dbid);
                }
            }
            assert(post.wf());
        }
        Ok(dbid)
    }

    /// Attach or replace the entry behavior of a state.
    pub fn set_entry(&mut self, state: usize, entry: crate::action::Entry<B>) -> (r:
        StateMachineResult<()>)
        requires
            old(self).wf(),
            call_requires(entry.func, ()),
        ensures
            r is Ok <==> old(self).is_state_id(state as int),
            match r {
                Ok(_) => {
                    let pre = *old(self);
                    let post = *final(self);
                    let si = pre.vertex_of(state as int).idx as int;
                    &&& post.wf()
                    &&& post.states@.len() == pre.states@.len()
                    &&& forall|j: int|
                        0 <= j < pre.states@.len() && j != si ==> post.states@[j] == pre.states@[j]
                    &&& post.states@[si].entry == Some(entry)
                    &&& post.states@[si].exit == pre.states@[si].exit
                    &&& post.states@[si].do_while == pre.states@[si].do_while
                    &&& post.states@[si].dbid == pre.states@[si].dbid
                    &&& post.states@[si].regions == pre.states@[si].regions
                    &&& post.elements == pre.elements
                    &&& post.parents == pre.parents
                    &&& post.names == pre.names
                    &&& post.fullnames == pre.fullnames
                    &&& post.vertices == pre.vertices
                    &&& post.regions == pre.regions
                    &&& post.transitions == pre.transitions
                    &&& post.event_types == pre.event_types
                    &&& post.state_machine == pre.state_machine
                    &&& post.name == pre.name
                    &&& post.dbid == pre.dbid
                },
                Err(e) => {
                    &&& *final(self) == *old(self)
                    &&& (!old(self).valid_id(state as int) ==> e == StateMachineError::InvalidDbId(
                        state,
                    ))
                    &&& (old(self).valid_id(state as int) && !old(self).is_state_id(state as int)
                        ==> e == StateMachineError::InvalidState(state))
                },
            },
    {
        let s_idx = self.state(state)?;
        proof {
            assert(self.element_ok(state as int));
            assert(self.vertex_entry_ok(self.idx_of(state as int)));
        }
        self.states[s_idx].put_entry(entry);
        proof {
            let pre = *old(self);
            let post = *self;
            assert forall|i: int| 0 < i < post.len() implies 0 <= #[trigger] post.parent_of(i)
                < i by {
                assert(0 <= pre.parent_of(i) < i);
            }
            assert forall|i: int|
                0 < i < post.len() implies post.fullnames@[i]@ == post.fullnames@[post.parent_of(
                i,
            )]@ + crate::machine::name_sep() + post.names@[i]@ by {
                assert(pre.fullnames@[i]@ == pre.fullnames@[pre.parent_of(i)]@
                    + crate::machine::name_sep() + pre.names@[i]@);
            }
            assert forall|i: int| 0 <= i < post.len() implies post.element_ok(i) by {
                assert(pre.element_ok(i));
            }
            assert forall|k: int|
                0 <= k < post.state_machine.regions@.len() implies post.top_region_ok(
                post.state_machine.regions@[k] as int,
            ) by {
                assert(pre.top_region_ok(pre.state_machine.regions@[k] as int));
            }
            assert forall|j: int| 0 <= j < post.regions@.len() implies post.region_entry_ok(j) by {
                assert(pre.region_entry_ok(j));
            }
            assert forall|j: int| 0 <= j < post.states@.len() implies post.state_entry_ok(j) by {
                assert(pre.state_entry_ok(j));
            }
            assert forall|j: int| 0 <= j < post.vertices@.len() implies post.vertex_entry_ok(j) by {
                assert(pre.vertex_entry_ok(j));
            }
            assert forall|j: int|
                0 <= j < post.transitions@.len() implies post.transition_entry_ok(j) by {
                assert(pre.transition_entry_ok(j));
            }
            assert forall|j: int|
                0 <= j < post.event_types@.len() implies post.event_entry_ok(j) by {
                assert(pre.event_entry_ok(j));
            }
            assert(post.wf());
        }
        Ok(())
    }

    /// Attach or replace the exit behavior of a state.
    pub fn set_exit(&mut self, state: usize, exit: crate::action::Exit<B>) -> (r:
        StateMachineResult<()>)
        requires
            old(self).wf(),
            call_requires(exit.func, ()),
        ensures
            r is Ok <==> old(self).is_state_id(state as int),
            match r {
                Ok(_) => {
                    let pre = *old(self);
                    let post = *final(self);
                    let si = pre.vertex_of(state as int).idx as int;
                    &&& post.wf()
                    &&& post.states@.len() == pre.states@.len()
                    &&& forall|j: int|
                        0 <= j < pre.states@.len() && j != si ==> post.states@[j] == pre.states@[j]
                    &&& post.states@[si].exit == Some(exit)
                    &&& post.states@[si].entry == pre.states@[si].entry
                    &&& post.states@[si].do_while == pre.states@[si].do_while
                    &&& post.states@[si].dbid == pre.states@[si].dbid
                    &&& post.states@[si].regions == pre.states@[si].regions
                    &&& post.elements == pre.elements
                    &&& post.parents == pre.parents
                    &&& post.names == pre.names
                    &&& post.fullnames == pre.fullnames
                    &&& post.vertices == pre.vertices
                    &&& post.regions == pre.regions
                    &&& post.transitions == pre.transitions
                    &&& post.event_types == pre.event_types
                    &&& post.state_machine == pre.state_machine
                    &&& post.name == pre.name
                    &&& post.dbid == pre.dbid
                },
                Err(e) => {
                    &&& *final(self) == *old(self)
                    &&& (!old(self).valid_id(state as int) ==> e == StateMachineError::InvalidDbId(
                        state,
                    ))
                    &&& (old(self).valid_id(state as int) && !old(self).is_state_id(state as int)
                        ==> e == StateMachineError::InvalidState(state))
                },
            },
    {
        let s_idx = self.state(state)?;
        proof {
            assert(self.element_ok(state as int));
            assert(self.vertex_entry_ok(self.idx_of(state as int)));
        }
        self.states[s_idx].put_exit(exit);
        proof {
            let pre = *old(self);
            let post = *self;
            assert forall|i: int| 0 < i < post.len() implies 0 <= #[trigger] post.parent_of(i)
                < i by {
                assert(0 <= pre.parent_of(i) < i);
            }
            assert forall|i: int|
                0 < i < post.len() implies post.fullnames@[i]@ == post.fullnames@[post.parent_of(
                i,
            )]@ + crate::machine::name_sep() + post.names@[i]@ by {
                assert(pre.fullnames@[i]@ == pre.fullnames@[pre.parent_of(i)]@
                    + crate::machine::name_sep() + pre.names@[i]@);
            }
            assert forall|i: int| 0 <= i < post.len() implies post.element_ok(i) by {
                assert(pre.element_ok(i));
            }
            assert forall|k: int|
                0 <= k < post.state_machine.regions@.len() implies post.top_region_ok(
                post.state_machine.regions@[k] as int,
            ) by {
                assert(pre.top_region_ok(pre.state_machine.regions@[k] as int));
            }
            assert forall|j: int| 0 <= j < post.regions@.len() implies post.region_entry_ok(j) by {
                assert(pre.region_entry_ok(j));
            }
            assert forall|j: int| 0 <= j < post.states@.len() implies post.state_entry_ok(j) by {
                assert(pre.state_entry_ok(j));
            }
            assert forall|j: int| 0 <= j < post.vertices@.len() implies post.vertex_entry_ok(j) by {
                assert(pre.vertex_entry_ok(j));
            }
            assert forall|j: int|
                0 <= j < post.transitions@.len() implies post.transition_entry_ok(j) by {
                assert(pre.transition_entry_ok(j));
            }
            assert forall|j: int|
                0 <= j < post.event_types@.len() implies post.event_entry_ok(j) by {
                assert(pre.event_entry_ok(j));
            }
            assert(post.wf());
        }
        Ok(())
    }

    /// The first initial pseudostate among `sub`, in declaration order, or
    /// the no-initial-state error naming region `rd`.
    pub open spec fn spec_initial_state(self, sub: Seq<usize>, rd: usize) -> Result<
        Option<usize>,
        StateMachineError,
    >
        decreases sub.len(),
    {
        if sub.len() == 0 {
            Err(StateMachineError::NoInitialState(rd))
        } else if (sub[0] as int) < self.len() && self.kind_of(sub[0] as int)
            == ElementType::Vertex(VertexType::InitialState) {
            Ok(Some(sub[0]))
        } else {
            self.spec_initial_state(sub.drop_first(), rd)
        }
    }

    /// The region's first initial pseudostate, or the no-initial-state
    /// error; a region that has vertices but no initial pseudostate among
    /// them reports the error as well.
    pub fn initial_state(&self, region: usize) -> (r: StateMachineResult<Option<usize>>)
        requires
            self.wf(),
        ensures
            !self.valid_id(region as int) ==> r == Err::<Option<usize>, _>(
                StateMachineError::InvalidDbId(region),
            ),
            self.valid_id(region as int) && !self.is_region_id(region as int) ==> r == Err::<
                Option<usize>,
                _,
            >(StateMachineError::InvalidRegion(region)),
            self.is_region_id(region as int) ==> r == self.spec_initial_state(
                self.region_of(region as int).subvertex@,
                region,
            ),
    {
        let r = self.region_ref(region)?;
        proof {
            assert(self.element_ok(region as int));
            assert(self.region_entry_ok(self.idx_of(region as int)));
            assert forall|k: int|
                0 <= k < r.subvertex@.len() implies (#[trigger] r.subvertex@[k] as int)
                < self.elements@.len() by {
                assert(self.vertex_in_region(r.subvertex@[k] as int, r.dbid as int));
            }
        }
        r.initial_state(self)
    }

    /// Add the region's default entry transition: reuse the region's initial
    /// pseudostate or create one, then add a transition named "initial" from
    /// it to `destination`. A second call on the same region fails with a
    /// duplicate-name conflict, which protects the region against two
    /// default entries.
    #[verifier::rlimit(50)]
    pub fn initial_transition(
        &mut self,
        region: usize,
        destination: usize,
        effect: crate::action::OptEffect<B>,
    ) -> (r: StateMachineResult<()>)
        requires
            old(self).wf(),
            effect matches crate::action::OptBehavior::Behavior(b) ==> call_requires(b.func, ()),
        ensures
            final(self).wf(),
            match r {
                Ok(_) => {
                    let pre = *old(self);
                    let post = *final(self);
                    match pre.spec_initial_state_of(region) {
                        Some(iv) => exists|d: usize|
                            Self::transition_added(
                                pre,
                                post,
                                "initial"@,
                                Option::None,
                                iv,
                                destination,
                                effect,
                                crate::action::OptGuard::Absent,
                                d,
                            ),
                        None => exists|mid: Db<G, B>, iv: usize, d: usize|
                            {
                                &&& Self::vertex_added(
                                    pre,
                                    mid,
                                    "initial"@,
                                    region,
                                    VertexType::InitialState,
                                    iv,
                                )
                                &&& Self::transition_added(
                                    mid,
                                    post,
                                    "initial"@,
                                    Option::None,
                                    iv,
                                    destination,
                                    effect,
                                    crate::action::OptGuard::Absent,
                                    d,
                                )
                            },
                    }
                },
                Err(e) => {
                    let pre = *old(self);
                    &&& (pre.spec_initial_state_of(region) is Some ==> *final(self) == pre)
                    &&& (pre.spec_initial_state_of(region) is None && !(pre.is_region_id(
                        region as int,
                    ) && !pre.has_dup(pre.region_of(region as int).subvertex@, "initial"@)) ==> {
                        &&& *final(self) == pre
                        &&& (!pre.valid_id(region as int) ==> e == StateMachineError::InvalidDbId(
                            region,
                        ))
                        &&& (pre.valid_id(region as int) && !pre.is_region_id(region as int) ==> e
                            == StateMachineError::InvalidRegion(region))
                        &&& (pre.is_region_id(region as int) ==> (
                        e matches StateMachineError::Duplicate(n) && n@ == "initial"@))
                    })
                    &&& (pre.spec_initial_state_of(region) is None && pre.is_region_id(
                        region as int,
                    ) && !pre.has_dup(pre.region_of(region as int).subvertex@, "initial"@)
                        ==> exists|iv: usize|
                        Self::vertex_added(
                            pre,
                            *final(self),
                            "initial"@,
                            region,
                            VertexType::InitialState,
                            iv,
                        ))
                },
            },
            r is Ok <==> Self::initial_transition_ok_cond(*old(self), region, destination),
    {
        let dbid = match self.initial_state(region) {
            Ok(Some(dbid)) => dbid,
            _ => self.add_vertex("initial", region, VertexType::InitialState)?,
        };
        proof {
            let pre = *old(self);
            if pre.spec_initial_state_of(region) matches Some(iv) {
                pre.lemma_initial_state_is_vertex(
                    pre.region_of(region as int).subvertex@,
                    region,
                );
            } else {
                let mid0 = *self;
                assert(Self::vertex_added(
                    pre,
                    mid0,
                    "initial"@,
                    region,
                    VertexType::InitialState,
                    dbid,
                ));
                if (destination as int) < pre.len() {
                    assert(mid0.is_vertex_id(destination as int) == pre.is_vertex_id(
                        destination as int,
                    ));
                    if pre.is_vertex_id(destination as int) {
                        assert(pre.element_ok(destination as int));
                        assert(mid0.vertex_of(destination as int) == pre.vertex_of(
                            destination as int,
                        ));
                        let inc = pre.vertex_of(destination as int).incoming@;
                        assert(pre.vertex_entry_ok(pre.idx_of(destination as int)));
                        assert forall|k: int|
                            0 <= k < inc.len() implies mid0.dup_name_at(
                            #[trigger] inc[k] as int,
                            "initial"@,
                        ) == pre.dup_name_at(inc[k] as int, "initial"@) by {
                            assert(pre.is_transition_id(inc[k] as int));
                        }
                        assert(mid0.has_dup(inc, "initial"@) == pre.has_dup(inc, "initial"@));
                    }
                }
            }
        }
        let ghost mid = *self;
        self.add_transition("initial", None, dbid, destination, effect, crate::action::OptGuard::Absent)?;
        Ok(())
    }

    /// When `initial_transition` succeeds: the region's initial pseudostate
    /// exists or can be created (the region is valid and no vertex in it is
    /// already named "initial"), no transition named "initial" leaves that
    /// pseudostate yet, and the destination is a vertex with no incoming
    /// transition of that name. A freshly created pseudostate may itself
    /// serve as the destination.
    pub open spec fn initial_transition_ok_cond(
        pre: Db<G, B>,
        region: usize,
        destination: usize,
    ) -> bool {
        match pre.spec_initial_state_of(region) {
            Some(iv) => {
                &&& !pre.has_dup(pre.vertex_of(iv as int).outgoing@, "initial"@)
                &&& pre.is_vertex_id(destination as int)
                &&& !pre.has_dup(pre.vertex_of(destination as int).incoming@, "initial"@)
            },
            Option::None => {
                &&& pre.is_region_id(region as int)
                &&& !pre.has_dup(pre.region_of(region as int).subvertex@, "initial"@)
                &&& (destination as int == pre.len() || (pre.is_vertex_id(destination as int)
                    && !pre.has_dup(
                    pre.vertex_of(destination as int).incoming@,
                    "initial"@,
                )))
            },
        }
    }

    /// A found initial pseudostate really is one.
    pub proof fn lemma_initial_state_is_vertex(self, sub: Seq<usize>, rd: usize)
        ensures
            self.spec_initial_state(sub, rd) matches Ok(Some(iv)) ==> self.valid_id(iv as int)
                && self.kind_of(iv as int) == ElementType::Vertex(VertexType::InitialState),
        decreases sub.len(),
    {
        if sub.len() > 0 {
            self.lemma_initial_state_is_vertex(sub.drop_first(), rd);
        }
    }

    /// The initial pseudostate `initial_transition` would reuse, when the
    /// identifier denotes a region that has one.
    pub open spec fn spec_initial_state_of(self, region: usize) -> Option<usize> {
        if self.is_region_id(region as int) {
            match self.spec_initial_state(self.region_of(region as int).subvertex@, region) {
                Ok(Some(iv)) => Some(iv),
                _ => Option::None,
            }
        } else {
            Option::None
        }
    }
}

} // verus!
