//! The element arena owning every model element, together with its
//! well-formedness invariant and the identifier-to-store lookups.

use vstd::prelude::*;
use vstd::string::StringExecFns;
use crate::action::OptGuard;
use crate::element::Container;
use crate::element::Element;
use crate::element::ElementType;
use crate::element::VertexType;
use crate::errors::StateMachineError;
use crate::errors::StateMachineResult;
use crate::stores::EventType;
use crate::stores::Region;
use crate::stores::State;
use crate::stores::StateMachineDef;
use crate::stores::VertexDef;
use crate::transition::Transition;

verus! {

/// The separator used between the components of a fully qualified name.
pub open spec fn name_sep() -> Seq<char> {
    "::"@
}

/// Exact string equality of a stored name against a candidate.
pub fn str_eq(a: &String, b: &str) -> (r: bool)
    ensures
        r == (a@ == b@),
{
    let owned: String = b.to_owned();
    *a == owned
}

/// Exact string equality of two string slices.
pub fn str_is(a: &str, b: &str) -> (r: bool)
    ensures
        r == (a@ == b@),
{
    let a_owned: String = a.to_owned();
    let b_owned: String = b.to_owned();
    a_owned == b_owned
}

/// The owning arena of one state machine model. Every element lives in
/// `elements`; `parents`, `names` and `fullnames` are parallel tables indexed
/// by element identifier, and each element points into the store of its kind.
///
/// `G` is the type of guard predicates and `B` the type of behavior actions
/// attached to the model.
#[derive(Debug)]
pub struct Db<G, B> {
    pub name: String,
    pub elements: Vec<Element>,
    /// Identifier of the state machine element itself; always 0.
    pub dbid: usize,
    pub state_machine: StateMachineDef,
    pub states: Vec<State<B>>,
    pub transitions: Vec<Transition<G, B>>,
    pub event_types: Vec<EventType>,
    /// Parallel to `elements`: the identifier of each element's parent.
    pub parents: Vec<usize>,
    /// Parallel to `elements`: each element's short name.
    pub names: Vec<String>,
    /// Parallel to `elements`: each element's fully qualified name.
    pub fullnames: Vec<String>,
    pub vertices: Vec<VertexDef>,
    pub regions: Vec<Region>,
}

/// A state machine model; the arena is the machine.
pub type StateMachine<G, B> = Db<G, B>;

impl<G: Fn() -> bool, B: Fn()> Db<G, B> {
    /// Number of elements in the arena.
    pub open spec fn len(self) -> int {
        self.elements@.len() as int
    }

    /// Whether `d` denotes some element of the arena.
    pub open spec fn valid_id(self, d: int) -> bool {
        0 <= d < self.len()
    }

    /// The kind tag of element `d`.
    pub open spec fn kind_of(self, d: int) -> ElementType {
        self.elements@[d].element_type
    }

    /// The kind-local store index of element `d`.
    pub open spec fn idx_of(self, d: int) -> int {
        self.elements@[d].idx as int
    }

    /// The parent identifier of element `d`.
    pub open spec fn parent_of(self, d: int) -> int {
        self.parents@[d] as int
    }

    /// Whether `d` denotes a region element.
    pub open spec fn is_region_id(self, d: int) -> bool {
        self.valid_id(d) && self.kind_of(d) == ElementType::Region
    }

    /// Whether `d` denotes a vertex element of any vertex kind.
    pub open spec fn is_vertex_id(self, d: int) -> bool {
        self.valid_id(d) && self.kind_of(d) matches ElementType::Vertex(_)
    }

    /// Whether `d` denotes a vertex element that is an ordinary state.
    pub open spec fn is_state_id(self, d: int) -> bool {
        self.valid_id(d) && self.kind_of(d) == ElementType::Vertex(VertexType::State)
    }

    /// Whether `d` denotes a transition element.
    pub open spec fn is_transition_id(self, d: int) -> bool {
        self.valid_id(d) && self.kind_of(d) == ElementType::Transition
    }

    /// Whether `d` denotes an event type element.
    pub open spec fn is_event_id(self, d: int) -> bool {
        self.valid_id(d) && self.kind_of(d) == ElementType::EventType
    }

    /// The state record of state element `d`.
    pub open spec fn state_of(self, d: int) -> State<B> {
        self.states@[self.vertices@[self.idx_of(d)].idx as int]
    }

    /// The transition record of transition element `d`.
    pub open spec fn transition_of(self, d: int) -> Transition<G, B> {
        self.transitions@[self.idx_of(d)]
    }

    /// The region record of region element `d`.
    pub open spec fn region_of(self, d: int) -> Region {
        self.regions@[self.idx_of(d)]
    }

    /// The vertex record of vertex element `d`.
    pub open spec fn vertex_of(self, d: int) -> VertexDef {
        self.vertices@[self.idx_of(d)]
    }

    /// The parallel tables all cover the arena, and the arena holds at least
    /// the root and its default region.
    pub open spec fn lens_ok(self) -> bool {
        &&& self.parents@.len() == self.elements@.len()
        &&& self.names@.len() == self.elements@.len()
        &&& self.fullnames@.len() == self.elements@.len()
        &&& self.len() >= 2
    }

    /// Every parent pointer goes strictly downward in creation order, with
    /// the root its own parent; all parent-chain walks are bounded by this.
    pub open spec fn parents_ok(self) -> bool {
        &&& self.parent_of(0) == 0
        &&& forall|i: int| 0 < i < self.len() ==> 0 <= #[trigger] self.parent_of(i) < i
    }

    /// Whether `r` is a top-level region: directly owned by the root.
    pub open spec fn top_region_ok(self, r: int) -> bool {
        &&& self.is_region_id(r)
        &&& self.parent_of(r) == 0
    }

    /// Element 0 is the state machine itself and its region list holds valid
    /// top-level regions, at least one of them.
    pub open spec fn root_ok(self) -> bool {
        &&& self.dbid == 0
        &&& self.kind_of(0) == ElementType::StateMachine
        &&& self.state_machine.dbid == 0
        &&& self.state_machine.name@ == self.names@[0]@
        &&& self.name@ == self.names@[0]@
        &&& self.state_machine.regions@.len() >= 1
        &&& forall|k: int|
            0 <= k < self.state_machine.regions@.len() ==> self.top_region_ok(
                #[trigger] self.state_machine.regions@[k] as int,
            )
        &&& forall|k1: int, k2: int|
            0 <= k1 < k2 < self.state_machine.regions@.len()
                ==> self.state_machine.regions@[k1] != self.state_machine.regions@[k2]
    }

    /// Full names compose: the root's full name is its own name, and every
    /// other element's full name is its parent's full name, the separator,
    /// then its own short name.
    pub open spec fn names_ok(self) -> bool {
        &&& self.fullnames@[0]@ == self.names@[0]@
        &&& forall|i: int|
            0 < i < self.len() ==> #[trigger] self.fullnames@[i]@ == self.fullnames@[self.parent_of(
                i,
            )]@ + name_sep() + self.names@[i]@
    }

    /// Arena entry `i` is self-indexed and points at a record of its kind
    /// that points back at it.
    pub open spec fn element_ok(self, i: int) -> bool {
        let e = self.elements@[i];
        &&& e.dbid == i
        &&& match e.element_type {
            ElementType::StateMachine => i == 0,
            ElementType::Region => {
                &&& (e.idx as int) < self.regions@.len()
                &&& self.regions@[e.idx as int].dbid == i
            },
            ElementType::Vertex(vt) => {
                &&& (e.idx as int) < self.vertices@.len()
                &&& self.vertices@[e.idx as int].dbid == i
            },
            ElementType::Transition => {
                &&& (e.idx as int) < self.transitions@.len()
                &&& self.transitions@[e.idx as int].dbid == i
            },
            ElementType::EventType => {
                &&& (e.idx as int) < self.event_types@.len()
                &&& self.event_types@[e.idx as int].dbid == i
            },
        }
    }

    /// Every arena entry is well-indexed.
    pub open spec fn elements_ok(self) -> bool {
        forall|i: int| 0 <= i < self.len() ==> self.element_ok(i)
    }

    /// Whether `v` is a vertex element directly contained in region `r`.
    pub open spec fn vertex_in_region(self, v: int, r: int) -> bool {
        &&& self.is_vertex_id(v)
        &&& self.parent_of(v) == r
    }

    /// Whether `r` is a region element directly owned by state `d`.
    pub open spec fn region_of_state(self, r: int, d: int) -> bool {
        &&& self.is_region_id(r)
        &&& self.parent_of(r) == d
    }

    /// The short name of vertex element `v`, read from its record.
    pub open spec fn vertex_name(self, v: int) -> Seq<char> {
        self.vertex_of(v).name@
    }

    /// The short name of transition element `t`, read from its record.
    pub open spec fn transition_name(self, t: int) -> Seq<char> {
        self.transition_of(t).name@
    }

    /// Region record `j` agrees with the arena: its element points back at
    /// it, its container matches the parent table, its vertex list holds
    /// distinctly named vertices of this region, and its default and active
    /// vertices, when set, lie inside it.
    pub open spec fn region_entry_ok(self, j: int) -> bool {
        let r = self.regions@[j];
        let d = r.dbid as int;
        &&& self.is_region_id(d)
        &&& self.idx_of(d) == j
        &&& r.name@ == self.names@[d]@
        &&& match r.container {
            Container::State(s) => self.parent_of(d) == s && self.is_state_id(s as int),
            Container::StateMachine(m) => m == 0 && self.parent_of(d) == 0,
        }
        &&& forall|k: int|
            0 <= k < r.subvertex@.len() ==> self.vertex_in_region(
                #[trigger] r.subvertex@[k] as int,
                d,
            )
        &&& forall|k1: int, k2: int|
            0 <= k1 < k2 < r.subvertex@.len() ==> self.vertex_name(r.subvertex@[k1] as int)
                != self.vertex_name(r.subvertex@[k2] as int)
        &&& (r.initial_state != 0 ==> self.vertex_in_region(r.initial_state as int, d))
        &&& (r.active_state != 0 ==> self.vertex_in_region(r.active_state as int, d))
    }

    /// State record `j` agrees with the arena: its element points back at it,
    /// its region list holds regions owned by it, and its attached behaviors
    /// are callable.
    pub open spec fn state_entry_ok(self, j: int) -> bool {
        let s = self.states@[j];
        let d = s.dbid as int;
        &&& self.is_state_id(d)
        &&& self.vertex_of(d).idx == j
        &&& forall|k: int|
            0 <= k < s.regions@.len() ==> self.region_of_state(#[trigger] s.regions@[k] as int, d)
        &&& forall|k1: int, k2: int|
            0 <= k1 < k2 < s.regions@.len() ==> s.regions@[k1] != s.regions@[k2]
        &&& (s.entry matches Some(b) ==> call_requires(b.func, ()))
        &&& (s.exit matches Some(b) ==> call_requires(b.func, ()))
        &&& (s.do_while matches Some(b) ==> call_requires(b.func, ()))
    }

    /// Vertex record `j` agrees with the arena: its element points back at
    /// it, its container is the region recorded in the parent table, and its
    /// incoming and outgoing lists hold distinctly named transitions ending
    /// and starting at it.
    pub open spec fn vertex_entry_ok(self, j: int) -> bool {
        let v = self.vertices@[j];
        let d = v.dbid as int;
        &&& self.valid_id(d)
        &&& self.kind_of(d) == ElementType::Vertex(v.vertex_type)
        &&& self.idx_of(d) == j
        &&& v.name@ == self.names@[d]@
        &&& self.is_region_id(v.container as int)
        &&& self.parent_of(d) == v.container
        &&& (v.vertex_type == VertexType::State ==> (v.idx as int) < self.states@.len()
            && self.states@[v.idx as int].dbid == d)
        &&& forall|k: int|
            0 <= k < v.outgoing@.len() ==> self.is_transition_id(#[trigger] v.outgoing@[k] as int)
                && self.transition_of(v.outgoing@[k] as int).source == d
        &&& forall|k: int|
            0 <= k < v.incoming@.len() ==> self.is_transition_id(#[trigger] v.incoming@[k] as int)
                && self.transition_of(v.incoming@[k] as int).target == d
        &&& forall|k1: int, k2: int|
            0 <= k1 < k2 < v.outgoing@.len() ==> self.transition_name(v.outgoing@[k1] as int)
                != self.transition_name(v.outgoing@[k2] as int)
        &&& forall|k1: int, k2: int|
            0 <= k1 < k2 < v.incoming@.len() ==> self.transition_name(v.incoming@[k1] as int)
                != self.transition_name(v.incoming@[k2] as int)
    }

    /// Transition record `j` agrees with the arena: its element points back
    /// at it, it runs between vertices, it hangs under a region, and its
    /// guard and effect are callable.
    pub open spec fn transition_entry_ok(self, j: int) -> bool {
        let t = self.transitions@[j];
        let d = t.dbid as int;
        &&& self.is_transition_id(d)
        &&& self.idx_of(d) == j
        &&& t.name@ == self.names@[d]@
        &&& self.is_vertex_id(t.source as int)
        &&& self.is_vertex_id(t.target as int)
        &&& self.is_region_id(self.parent_of(d))
        &&& (t.guard matches OptGuard::Guard(g) ==> call_requires(g.func, ()))
        &&& (t.effect matches crate::action::OptBehavior::Behavior(b) ==> call_requires(
            b.func,
            (),
        ))
    }

    /// Event type record `j` agrees with the arena.
    pub open spec fn event_entry_ok(self, j: int) -> bool {
        let ev = self.event_types@[j];
        let d = ev.dbid as int;
        &&& self.is_event_id(d)
        &&& self.idx_of(d) == j
        &&& ev.name@ == self.names@[d]@
        &&& self.parent_of(d) == 0
    }

    /// The whole model is well formed: the arena, the parallel tables and
    /// every kind-specific store agree with one another. Every operation of
    /// the library preserves this invariant.
    pub open spec fn wf(self) -> bool {
        &&& self.lens_ok()
        &&& self.parents_ok()
        &&& self.root_ok()
        &&& self.names_ok()
        &&& self.elements_ok()
        &&& forall|j: int| 0 <= j < self.regions@.len() ==> self.region_entry_ok(j)
        &&& forall|j: int| 0 <= j < self.states@.len() ==> self.state_entry_ok(j)
        &&& forall|j: int| 0 <= j < self.vertices@.len() ==> self.vertex_entry_ok(j)
        &&& forall|j: int| 0 <= j < self.transitions@.len() ==> self.transition_entry_ok(j)
        &&& forall|j: int| 0 <= j < self.event_types@.len() ==> self.event_entry_ok(j)
    }

    /// Create a new state machine model. The fresh model holds exactly two
    /// elements: the state machine itself (identifier 0) and one default
    /// top-level region named "region_1" (identifier 1). Renaming the default
    /// region on the first call of `add_sm_region` is the single supported
    /// rename, and it happens before the region has any descendant, so the
    /// full-name table never goes stale.
    pub fn new(name: &str) -> (db: Db<G, B>)
        ensures
            db.wf(),
            db.elements@.len() == 2,
            db.kind_of(1) == ElementType::Region,
            db.idx_of(1) == 0,
            db.parent_of(1) == 0,
            db.names@[0]@ == name@,
            db.fullnames@[0]@ == name@,
            db.names@[1]@ == "region_1"@,
            db.state_machine.regions@ =~= seq![1usize],
            db.regions@.len() == 1,
            db.regions@[0].name@ == "region_1"@,
            db.regions@[0].subvertex@.len() == 0,
            db.regions@[0].initial_state == 0,
            db.regions@[0].active_state == 0,
            db.states@.len() == 0,
            db.transitions@.len() == 0,
            db.event_types@.len() == 0,
            db.vertices@.len() == 0,
    {
        let mut db = Db {
            name: name.to_owned(),
            dbid: 0,
            elements: Vec::new(),
            states: Vec::new(),
            transitions: Vec::new(),
            event_types: Vec::new(),
            parents: Vec::new(),
            vertices: Vec::new(),
            names: Vec::new(),
            fullnames: Vec::new(),
            state_machine: StateMachineDef::new(name, 0),
            regions: Vec::new(),
        };
        let dbid = db.new_element(name, 0, 0, ElementType::StateMachine);
        // The default region; add_region cannot be used before the root
        // exists, so the bootstrap region is laid down by hand.
        let r_dbid = db.elements.len();
        db.regions.push(Region::new("region_1", r_dbid, Container::StateMachine(0)));
        let _ = db.new_element("region_1", dbid, 0, ElementType::Region);
        db.state_machine.add_region(r_dbid);
        proof {
            assert forall|i: int| 0 <= i < db.len() implies db.element_ok(i) by {
                if i == 0 {
                    assert(db.element_ok(0));
                } else {
                    assert(db.element_ok(1));
                }
            }
            assert forall|j: int| 0 <= j < db.regions@.len() implies db.region_entry_ok(j) by {
                assert(db.region_entry_ok(0));
            }
            assert(db.parent_of(1) == 0);
            assert(db.state_machine.regions@ =~= seq![1usize]);
            assert(db.top_region_ok(1));
        }
        db
    }

    /// Append one element to the arena and its parallel tables. The caller
    /// records the matching kind-specific entry and keeps the model well
    /// formed; the full name of the new element is its parent's full name,
    /// the separator, then its own name, except for the root whose full name
    /// is its own name.
    pub(crate) fn new_element(
        &mut self,
        name: &str,
        parent: usize,
        idx: usize,
        element_type: ElementType,
    ) -> (dbid: usize)
        requires
            old(self).parents@.len() == old(self).elements@.len(),
            old(self).names@.len() == old(self).elements@.len(),
            old(self).fullnames@.len() == old(self).elements@.len(),
            old(self).elements@.len() == 0 ==> parent == 0,
            old(self).elements@.len() > 0 ==> (parent as int) < old(self).elements@.len(),
        ensures
            dbid as int == old(self).elements@.len(),
            final(self).elements@ == old(self).elements@.push(
                Element { dbid, idx, element_type },
            ),
            final(self).parents@ == old(self).parents@.push(parent),
            final(self).names@.len() == old(self).names@.len() + 1,
            forall|i: int| 0 <= i < dbid as int ==> final(self).names@[i] == old(self).names@[i],
            final(self).names@[dbid as int]@ == name@,
            final(self).fullnames@.len() == old(self).fullnames@.len() + 1,
            forall|i: int|
                0 <= i < dbid as int ==> final(self).fullnames@[i] == old(self).fullnames@[i],
            dbid == 0 ==> final(self).fullnames@[0]@ == name@,
            dbid > 0 ==> final(self).fullnames@[dbid as int]@ == old(self).fullnames@[parent as int]@
                + name_sep() + name@,
            final(self).name == old(self).name,
            final(self).dbid == old(self).dbid,
            final(self).state_machine == old(self).state_machine,
            final(self).states == old(self).states,
            final(self).transitions == old(self).transitions,
            final(self).event_types == old(self).event_types,
            final(self).vertices == old(self).vertices,
            final(self).regions == old(self).regions,
    {
        let dbid = self.elements.len();
        let new_ele = Element::new(dbid, idx, element_type);
        self.elements.push(new_ele);
        self.parents.push(parent);
        self.names.push(name.to_owned());
        if dbid == 0 {
            self.fullnames.push(name.to_owned());
        } else {
            let full = self.fullnames[parent].clone().concat("::").concat(name);
            self.fullnames.push(full);
        }
        dbid
    }

    /// Overwrite the short and full name of one element in place. Only the
    /// default region is ever renamed, and only while it has no descendant.
    pub(crate) fn rename(&mut self, dbid: usize, name: &str)
        requires
            old(self).lens_ok(),
            old(self).parents_ok(),
            old(self).valid_id(dbid as int),
        ensures
            final(self).names@.len() == old(self).names@.len(),
            forall|i: int|
                0 <= i < old(self).names@.len() && i != dbid as int ==> final(self).names@[i]
                    == old(self).names@[i],
            final(self).names@[dbid as int]@ == name@,
            final(self).fullnames@.len() == old(self).fullnames@.len(),
            forall|i: int|
                0 <= i < old(self).fullnames@.len() && i != dbid as int ==> final(self).fullnames@[i]
                    == old(self).fullnames@[i],
            dbid == 0 ==> final(self).fullnames@[0]@ == name@,
            dbid > 0 ==> final(self).fullnames@[dbid as int]@ == old(self).fullnames@[old(
                self,
            ).parent_of(dbid as int)]@ + name_sep() + name@,
            final(self).name == old(self).name,
            final(self).dbid == old(self).dbid,
            final(self).elements == old(self).elements,
            final(self).parents == old(self).parents,
            final(self).state_machine == old(self).state_machine,
            final(self).states == old(self).states,
            final(self).transitions == old(self).transitions,
            final(self).event_types == old(self).event_types,
            final(self).vertices == old(self).vertices,
            final(self).regions == old(self).regions,
    {
        self.names[dbid] = name.to_owned();
        if dbid == 0 {
            self.fullnames[0] = name.to_owned();
        } else {
            let parent = self.parents[dbid];
            proof {
                assert(0 <= old(self).parent_of(dbid as int) < dbid as int);
            }
            let full = self.fullnames[parent].clone().concat("::").concat(name);
            self.fullnames[dbid] = full;
        }
    }

    /// Full names compose along the parent chain: every element's full name
    /// is its parent's full name, the separator, then its own short name,
    /// except the root whose full name equals its own name.
    pub proof fn lemma_fullname_composition(self, e: int)
        requires
            self.wf(),
            0 <= e < self.len(),
        ensures
            e > 0 ==> self.fullnames@[e]@ == self.fullnames@[self.parent_of(e)]@ + name_sep()
                + self.names@[e]@,
            e == 0 ==> self.fullnames@[0]@ == self.names@[0]@,
    {
    }

    /// Check that `dbid` denotes some element of the model.
    pub fn is_valid_dbid(&self, dbid: usize) -> (r: StateMachineResult<()>)
        ensures
            self.valid_id(dbid as int) ==> r == Ok::<(), StateMachineError>(()),
            !self.valid_id(dbid as int) ==> r == Err::<(), _>(
                StateMachineError::InvalidDbId(dbid),
            ),
    {
        if dbid >= self.elements.len() {
            Err(StateMachineError::InvalidDbId(dbid))
        } else {
            Ok(())
        }
    }

    /// Fetch the arena entry for `dbid`.
    pub(crate) fn element(&self, dbid: usize) -> (r: StateMachineResult<Element>)
        ensures
            self.valid_id(dbid as int) ==> r == Ok::<_, StateMachineError>(
                self.elements@[dbid as int],
            ),
            !self.valid_id(dbid as int) ==> r == Err::<Element, _>(
                StateMachineError::InvalidDbId(dbid),
            ),
    {
        if dbid < self.elements.len() {
            Ok(self.elements[dbid])
        } else {
            Err(StateMachineError::InvalidDbId(dbid))
        }
    }

    /// Translate a region identifier to its store index.
    pub(crate) fn region(&self, dbid: usize) -> (r: StateMachineResult<usize>)
        requires
            self.wf(),
        ensures
            self.is_region_id(dbid as int) ==> r == Ok::<_, StateMachineError>(
                self.elements@[dbid as int].idx,
            ),
            !self.valid_id(dbid as int) ==> r == Err::<usize, _>(
                StateMachineError::InvalidDbId(dbid),
            ),
            self.valid_id(dbid as int) && !self.is_region_id(dbid as int) ==> r == Err::<usize, _>(
                StateMachineError::InvalidRegion(dbid),
            ),
    {
        let ele = self.element(dbid)?;
        proof {
            assert(self.element_ok(dbid as int));
        }
        self.get_region_by_ele(ele)
    }

    /// Translate an arena entry to a region store index.
    pub(crate) fn get_region_by_ele(&self, ele: Element) -> (r: StateMachineResult<usize>)
        ensures
            (ele.element_type == ElementType::Region) ==> r == Ok::<_, StateMachineError>(ele.idx),
            (ele.element_type != ElementType::Region) ==> r == Err::<usize, _>(
                StateMachineError::InvalidRegion(ele.dbid),
            ),
    {
        match ele.element_type {
            ElementType::Region => Ok(ele.idx),
            _ => Err(StateMachineError::InvalidRegion(ele.dbid)),
        }
    }

    /// Fetch the region record for `dbid`.
    pub(crate) fn region_ref(&self, dbid: usize) -> (r: StateMachineResult<&Region>)
        requires
            self.wf(),
        ensures
            self.is_region_id(dbid as int) ==> (r matches Ok(rr) && *rr == self.region_of(
                dbid as int,
            )),
            !self.valid_id(dbid as int) ==> r == Err::<&Region, _>(
                StateMachineError::InvalidDbId(dbid),
            ),
            self.valid_id(dbid as int) && !self.is_region_id(dbid as int) ==> r == Err::<
                &Region,
                _,
            >(StateMachineError::InvalidRegion(dbid)),
    {
        let r_idx = self.region(dbid)?;
        proof {
            assert(self.element_ok(dbid as int));
        }
        Ok(&self.regions[r_idx])
    }

    /// Verify that `dbid` denotes a transition element.
    pub(crate) fn valid_transition(&self, dbid: usize) -> (r: StateMachineResult<()>)
        requires
            self.wf(),
        ensures
            self.is_transition_id(dbid as int) ==> r == Ok::<(), StateMachineError>(()),
            !self.valid_id(dbid as int) ==> r == Err::<(), _>(
                StateMachineError::InvalidDbId(dbid),
            ),
            self.valid_id(dbid as int) && !self.is_transition_id(dbid as int) ==> r == Err::<(), _>(
                StateMachineError::InvalidVertex(dbid),
            ),
    {
        self.transition(dbid)?;
        Ok(())
    }

    /// Translate a transition identifier to its store index.
    pub(crate) fn transition(&self, dbid: usize) -> (r: StateMachineResult<usize>)
        requires
            self.wf(),
        ensures
            self.is_transition_id(dbid as int) ==> r == Ok::<_, StateMachineError>(
                self.elements@[dbid as int].idx,
            ),
            !self.valid_id(dbid as int) ==> r == Err::<usize, _>(
                StateMachineError::InvalidDbId(dbid),
            ),
            self.valid_id(dbid as int) && !self.is_transition_id(dbid as int) ==> r == Err::<
                usize,
                _,
            >(StateMachineError::InvalidVertex(dbid)),
    {
        let ele = self.element(dbid)?;
        proof {
            assert(self.element_ok(dbid as int));
        }
        self.get_transition_by_ele(ele)
    }

    /// Translate an arena entry to a transition store index.
    pub(crate) fn get_transition_by_ele(&self, ele: Element) -> (r: StateMachineResult<usize>)
        ensures
            (ele.element_type == ElementType::Transition) ==> r == Ok::<_, StateMachineError>(
                ele.idx,
            ),
            (ele.element_type != ElementType::Transition) ==> r == Err::<usize, _>(
                StateMachineError::InvalidVertex(ele.dbid),
            ),
    {
        match ele.element_type {
            ElementType::Transition => Ok(ele.idx),
            _ => Err(StateMachineError::InvalidVertex(ele.dbid)),
        }
    }

    /// Verify that `dbid` denotes an ordinary state element.
    pub(crate) fn valid_state(&self, dbid: usize) -> (r: StateMachineResult<()>)
        requires
            self.wf(),
        ensures
            self.is_state_id(dbid as int) ==> r == Ok::<(), StateMachineError>(()),
            !self.valid_id(dbid as int) ==> r == Err::<(), _>(
                StateMachineError::InvalidDbId(dbid),
            ),
            self.valid_id(dbid as int) && !self.is_state_id(dbid as int) ==> r == Err::<(), _>(
                StateMachineError::InvalidState(dbid),
            ),
    {
        self.state(dbid)?;
        Ok(())
    }

    /// Translate a state identifier to its state store index.
    pub(crate) fn state(&self, dbid: usize) -> (r: StateMachineResult<usize>)
        requires
            self.wf(),
        ensures
            self.is_state_id(dbid as int) ==> r == Ok::<_, StateMachineError>(
                self.vertices@[self.idx_of(dbid as int)].idx,
            ),
            !self.valid_id(dbid as int) ==> r == Err::<usize, _>(
                StateMachineError::InvalidDbId(dbid),
            ),
            self.valid_id(dbid as int) && !self.is_state_id(dbid as int) ==> r == Err::<usize, _>(
                StateMachineError::InvalidState(dbid),
            ),
    {
        let ele = self.element(dbid)?;
        proof {
            assert(self.element_ok(dbid as int));
        }
        self.get_state_by_ele(ele)
    }

    /// Translate an arena entry to a state store index.
    pub(crate) fn get_state_by_ele(&self, ele: Element) -> (r: StateMachineResult<usize>)
        requires
            self.wf(),
            ele.dbid < self.elements@.len(),
            self.elements@[ele.dbid as int] == ele,
        ensures
            (ele.element_type == ElementType::Vertex(VertexType::State)) ==> r == Ok::<
                _,
                StateMachineError,
            >(self.vertices@[ele.idx as int].idx),
            (ele.element_type != ElementType::Vertex(VertexType::State)) ==> r == Err::<usize, _>(
                StateMachineError::InvalidState(ele.dbid),
            ),
    {
        match ele.element_type {
            ElementType::Vertex(VertexType::State) => {
                proof {
                    assert(self.element_ok(ele.dbid as int));
                }
                let s_idx = self.vertices[ele.idx].idx;
                Ok(s_idx)
            },
            _ => Err(StateMachineError::InvalidState(ele.dbid)),
        }
    }

    /// Verify that `dbid` denotes a vertex element.
    pub(crate) fn valid_vertex(&self, dbid: usize) -> (r: StateMachineResult<()>)
        requires
            self.wf(),
        ensures
            self.is_vertex_id(dbid as int) ==> r == Ok::<(), StateMachineError>(()),
            !self.valid_id(dbid as int) ==> r == Err::<(), _>(
                StateMachineError::InvalidDbId(dbid),
            ),
            self.valid_id(dbid as int) && !self.is_vertex_id(dbid as int) ==> r == Err::<(), _>(
                StateMachineError::InvalidVertex(dbid),
            ),
    {
        self.vertex(dbid)?;
        Ok(())
    }

    /// Translate a vertex identifier to its vertex store index.
    pub(crate) fn vertex(&self, dbid: usize) -> (r: StateMachineResult<usize>)
        requires
            self.wf(),
        ensures
            self.is_vertex_id(dbid as int) ==> r == Ok::<_, StateMachineError>(
                self.elements@[dbid as int].idx,
            ),
            !self.valid_id(dbid as int) ==> r == Err::<usize, _>(
                StateMachineError::InvalidDbId(dbid),
            ),
            self.valid_id(dbid as int) && !self.is_vertex_id(dbid as int) ==> r == Err::<usize, _>(
                StateMachineError::InvalidVertex(dbid),
            ),
    {
        let ele = self.element(dbid)?;
        proof {
            assert(self.element_ok(dbid as int));
        }
        self.get_vertex_by_ele(ele)
    }

    /// Translate an arena entry to a vertex store index.
    pub(crate) fn get_vertex_by_ele(&self, ele: Element) -> (r: StateMachineResult<usize>)
        ensures
            (ele.element_type matches ElementType::Vertex(_)) ==> r == Ok::<_, StateMachineError>(
                ele.idx,
            ),
            !(ele.element_type matches ElementType::Vertex(_)) ==> r == Err::<usize, _>(
                StateMachineError::InvalidVertex(ele.dbid),
            ),
    {
        match ele.element_type {
            ElementType::Vertex(_) => Ok(ele.idx),
            _ => Err(StateMachineError::InvalidVertex(ele.dbid)),
        }
    }

    /// Fetch the vertex record for `dbid`.
    pub(crate) fn vertex_def(&self, dbid: usize) -> (r: StateMachineResult<&VertexDef>)
        requires
            self.wf(),
        ensures
            self.is_vertex_id(dbid as int) ==> (r matches Ok(v) && *v == self.vertex_of(
                dbid as int,
            )),
            !self.valid_id(dbid as int) ==> r == Err::<&VertexDef, _>(
                StateMachineError::InvalidDbId(dbid),
            ),
            self.valid_id(dbid as int) && !self.is_vertex_id(dbid as int) ==> r == Err::<
                &VertexDef,
                _,
            >(StateMachineError::InvalidVertex(dbid)),
    {
        let v_idx = self.vertex(dbid)?;
        proof {
            assert(self.element_ok(dbid as int));
        }
        Ok(&self.vertices()[v_idx])
    }

    /// The whole vertex store.
    pub(crate) fn vertices(&self) -> (r: &Vec<VertexDef>)
        ensures
            r == &self.vertices,
    {
        &self.vertices
    }
}

} // verus!
