//! Kind-specific records: the typed sub-stores referenced from arena entries.

use vstd::prelude::*;
use crate::action::Behavior;
use crate::element::Container;
use crate::element::ElementType;
use crate::element::VertexType;
use crate::errors::StateMachineError;
use crate::errors::StateMachineResult;

verus! {

/// The record behind every vertex element: its kind, the region that owns it,
/// and its incoming and outgoing transition identifier lists.
#[derive(Debug)]
pub struct VertexDef {
    pub name: String,
    /// Identifier of this vertex in the element arena.
    pub dbid: usize,
    /// Index into the state store when the vertex is an ordinary state.
    pub idx: usize,
    pub vertex_type: VertexType,
    /// Identifier of the region directly containing this vertex.
    pub container: usize,
    pub incoming: Vec<usize>,
    pub outgoing: Vec<usize>,
}

impl VertexDef {
    pub fn new(name: &str, dbid: usize, idx: usize, region: usize, vertex_type: VertexType) -> (v:
        VertexDef)
        ensures
            v.name@ == name@,
            v.dbid == dbid,
            v.idx == idx,
            v.vertex_type == vertex_type,
            v.container == region,
            v.incoming@ == Seq::<usize>::empty(),
            v.outgoing@ == Seq::<usize>::empty(),
    {
        VertexDef {
            name: name.to_owned(),
            dbid,
            idx,
            vertex_type,
            container: region,
            incoming: Vec::new(),
            outgoing: Vec::new(),
        }
    }
}

impl VertexDef {
    /// Record a transition leaving this vertex.
    pub(crate) fn push_outgoing(&mut self, dbid: usize)
        ensures
            final(self).outgoing@ == old(self).outgoing@.push(dbid),
            final(self).incoming == old(self).incoming,
            final(self).name == old(self).name,
            final(self).dbid == old(self).dbid,
            final(self).idx == old(self).idx,
            final(self).vertex_type == old(self).vertex_type,
            final(self).container == old(self).container,
    {
        self.outgoing.push(dbid);
    }

    /// Record a transition entering this vertex.
    pub(crate) fn push_incoming(&mut self, dbid: usize)
        ensures
            final(self).incoming@ == old(self).incoming@.push(dbid),
            final(self).outgoing == old(self).outgoing,
            final(self).name == old(self).name,
            final(self).dbid == old(self).dbid,
            final(self).idx == old(self).idx,
            final(self).vertex_type == old(self).vertex_type,
            final(self).container == old(self).container,
    {
        self.incoming.push(dbid);
    }
}

/// An orthogonal component of a composite state or of the state machine.
/// It owns the vertices directly inside it, remembers which of them is the
/// default entry target, and tracks the currently active one.
#[derive(Debug)]
pub struct Region {
    pub name: String,
    /// Identifier of this region in the element arena.
    pub dbid: usize,
    pub container: Container,
    /// Identifier of the default entry vertex, 0 when unset.
    pub initial_state: usize,
    /// Identifier of the currently active vertex, 0 when unset.
    pub active_state: usize,
    /// Identifiers of the vertices directly owned by this region.
    pub subvertex: Vec<usize>,
}

impl Region {
    pub fn new(name: &str, dbid: usize, container: Container) -> (r: Region)
        ensures
            r.name@ == name@,
            r.dbid == dbid,
            r.container == container,
            r.initial_state == 0,
            r.active_state == 0,
            r.subvertex@ == Seq::<usize>::empty(),
    {
        Region {
            name: name.to_owned(),
            dbid,
            container,
            initial_state: 0,
            active_state: 0,
            subvertex: Vec::new(),
        }
    }

    /// Overwrite this region's name; used only to rename the default region
    /// before anything was added to it.
    pub(crate) fn set_name(&mut self, name: &str)
        ensures
            final(self).name@ == name@,
            final(self).dbid == old(self).dbid,
            final(self).container == old(self).container,
            final(self).initial_state == old(self).initial_state,
            final(self).active_state == old(self).active_state,
            final(self).subvertex == old(self).subvertex,
    {
        self.name = name.to_owned();
    }

    /// Make `dbid` both the default entry vertex and the active vertex of
    /// this region.
    pub(crate) fn mark_initial(&mut self, dbid: usize)
        ensures
            final(self).initial_state == dbid,
            final(self).active_state == dbid,
            final(self).name == old(self).name,
            final(self).dbid == old(self).dbid,
            final(self).container == old(self).container,
            final(self).subvertex == old(self).subvertex,
    {
        self.initial_state = dbid;
        self.active_state = dbid;
    }

    /// The first initial pseudostate among this region's vertices, in
    /// declaration order, or the no-initial-state error when there is none.
    pub fn initial_state<G: Fn() -> bool, B: Fn()>(&self, sm: &crate::machine::Db<G, B>) -> (r:
        StateMachineResult<Option<usize>>)
        requires
            forall|k: int|
                0 <= k < self.subvertex@.len() ==> (#[trigger] self.subvertex@[k] as int)
                    < sm.elements@.len(),
        ensures
            r == sm.spec_initial_state(self.subvertex@, self.dbid),
    {
        let ghost subs = self.subvertex@;
        proof {
            assert(subs.skip(0) =~= subs);
        }
        let mut i: usize = 0;
        while i < self.subvertex.len()
            invariant
                subs == self.subvertex@,
                forall|k: int|
                    0 <= k < subs.len() ==> (#[trigger] subs[k] as int) < sm.elements@.len(),
                i <= subs.len(),
                sm.spec_initial_state(subs, self.dbid) == sm.spec_initial_state(
                    subs.skip(i as int),
                    self.dbid,
                ),
            decreases subs.len() - i,
        {
            let v = self.subvertex[i];
            proof {
                assert(subs.skip(i as int)[0] == subs[i as int]);
                assert(subs.skip(i as int).drop_first() =~= subs.skip(i + 1 as int));
            }
            match sm.elements[v].element_type {
                ElementType::Vertex(VertexType::InitialState) => {
                    return Ok(Some(v));
                },
                _ => {},
            }
            i += 1;
        }
        proof {
            assert(subs.skip(subs.len() as int) =~= Seq::<usize>::empty());
        }
        Err(StateMachineError::NoInitialState(self.dbid))
    }

    /// Append a vertex to this region's vertex list.
    pub(crate) fn push_vertex(&mut self, dbid: usize)
        ensures
            final(self).subvertex@ == old(self).subvertex@.push(dbid),
            final(self).name == old(self).name,
            final(self).dbid == old(self).dbid,
            final(self).container == old(self).container,
            final(self).initial_state == old(self).initial_state,
            final(self).active_state == old(self).active_state,
    {
        self.subvertex.push(dbid);
    }
}

/// The kind-specific payload of an ordinary state: its owned regions and its
/// optional entry, exit and do-activity behaviors. Classification (simple,
/// composite, orthogonal) is always derived from the region count and never
/// stored.
#[derive(Debug)]
pub struct State<B> {
    /// Identifier of this state in the element arena.
    pub dbid: usize,
    /// Identifiers of the regions owned by this state, in creation order.
    pub regions: Vec<usize>,
    pub entry: Option<Behavior<B>>,
    pub exit: Option<Behavior<B>>,
    pub do_while: Option<Behavior<B>>,
}

impl<B: Fn()> State<B> {
    pub fn new(dbid: usize) -> (s: State<B>)
        ensures
            s.dbid == dbid,
            s.regions@ == Seq::<usize>::empty(),
            s.entry is None,
            s.exit is None,
            s.do_while is None,
    {
        State { dbid, regions: Vec::new(), entry: None, exit: None, do_while: None }
    }

    /// A simple state owns no region at all.
    pub fn is_simple(&self) -> (r: bool)
        ensures
            r == (self.regions@.len() == 0),
    {
        self.regions.len() == 0
    }

    /// A composite state owns at least one region.
    pub fn is_composite(&self) -> (r: bool)
        ensures
            r == (self.regions@.len() > 0),
    {
        self.regions.len() > 0
    }

    /// An orthogonal state owns more than one region.
    pub fn is_orthogonal(&self) -> (r: bool)
        ensures
            r == (self.regions@.len() > 1),
    {
        self.regions.len() > 1
    }

    pub fn add_region(&mut self, region_dbid: usize)
        ensures
            final(self).regions@ == old(self).regions@.push(region_dbid),
            final(self).dbid == old(self).dbid,
            final(self).entry == old(self).entry,
            final(self).exit == old(self).exit,
            final(self).do_while == old(self).do_while,
    {
        self.regions.push(region_dbid);
    }

    /// Return the sole owned region, nothing when there is none, or an error
    /// when the state owns several and the choice is ambiguous.
    pub fn get_only_region(&self) -> (r: StateMachineResult<Option<usize>>)
        ensures
            self.regions@.len() == 1 ==> r == Ok::<_, StateMachineError>(
                Some(self.regions@[0]),
            ),
            self.regions@.len() == 0 ==> r == Ok::<_, StateMachineError>(Option::<usize>::None),
            self.regions@.len() > 1 ==> r == Err::<Option<usize>, _>(
                StateMachineError::ContainsMultipleRegions(self.dbid),
            ),
    {
        if self.regions.len() == 1 {
            Ok(Some(self.regions[0]))
        } else if self.regions.len() == 0 {
            Ok(None)
        } else {
            Err(StateMachineError::ContainsMultipleRegions(self.dbid))
        }
    }

    /// Attach or replace the entry behavior.
    pub(crate) fn put_entry(&mut self, b: Behavior<B>)
        ensures
            final(self).entry == Some(b),
            final(self).exit == old(self).exit,
            final(self).do_while == old(self).do_while,
            final(self).dbid == old(self).dbid,
            final(self).regions == old(self).regions,
    {
        self.entry = Some(b);
    }

    /// Attach or replace the exit behavior.
    pub(crate) fn put_exit(&mut self, b: Behavior<B>)
        ensures
            final(self).exit == Some(b),
            final(self).entry == old(self).entry,
            final(self).do_while == old(self).do_while,
            final(self).dbid == old(self).dbid,
            final(self).regions == old(self).regions,
    {
        self.exit = Some(b);
    }

    /// Run the entry behavior if one is attached; otherwise do nothing.
    pub fn perform_entry(&self)
        requires
            self.entry matches Some(b) ==> call_requires(b.func, ()),
        ensures
            self.entry matches Some(b) ==> call_ensures(b.func, (), ()),
    {
        match &self.entry {
            Some(behavior) => (behavior.func)(),
            None => (),
        }
    }

    /// Run the exit behavior if one is attached; otherwise do nothing.
    pub fn perform_exit(&self)
        requires
            self.exit matches Some(b) ==> call_requires(b.func, ()),
        ensures
            self.exit matches Some(b) ==> call_ensures(b.func, (), ()),
    {
        match &self.exit {
            Some(behavior) => (behavior.func)(),
            None => (),
        }
    }

    /// Run the do-activity behavior if one is attached; otherwise do nothing.
    pub fn perform_do(&self)
        requires
            self.do_while matches Some(b) ==> call_requires(b.func, ()),
        ensures
            self.do_while matches Some(b) ==> call_ensures(b.func, (), ()),
    {
        match &self.do_while {
            Some(behavior) => (behavior.func)(),
            None => (),
        }
    }
}

/// The root container of the model: the ordered list of top-level regions.
#[derive(Debug)]
pub struct StateMachineDef {
    pub name: String,
    /// Identifier of the state machine element; always 0.
    pub dbid: usize,
    /// Identifiers of the top-level regions, in creation order.
    pub regions: Vec<usize>,
}

impl StateMachineDef {
    pub fn new(name: &str, dbid: usize) -> (sm: StateMachineDef)
        ensures
            sm.name@ == name@,
            sm.dbid == dbid,
            sm.regions@ == Seq::<usize>::empty(),
    {
        StateMachineDef { name: name.to_owned(), dbid, regions: Vec::new() }
    }

    pub fn add_region(&mut self, region_dbid: usize)
        ensures
            final(self).regions@ == old(self).regions@.push(region_dbid),
            final(self).name == old(self).name,
            final(self).dbid == old(self).dbid,
    {
        self.regions.push(region_dbid);
    }

    /// Return the sole top-level region, nothing when there is none, or an
    /// error when several exist and the choice is ambiguous.
    pub fn get_only_region(&self) -> (r: StateMachineResult<Option<usize>>)
        ensures
            self.regions@.len() == 1 ==> r == Ok::<_, StateMachineError>(
                Some(self.regions@[0]),
            ),
            self.regions@.len() == 0 ==> r == Ok::<_, StateMachineError>(Option::<usize>::None),
            self.regions@.len() > 1 ==> r == Err::<Option<usize>, _>(
                StateMachineError::ContainsMultipleRegions(self.dbid),
            ),
    {
        if self.regions.len() == 1 {
            Ok(Some(self.regions[0]))
        } else if self.regions.len() == 0 {
            Ok(None)
        } else {
            Err(StateMachineError::ContainsMultipleRegions(self.dbid))
        }
    }
}

/// A declared trigger kind, distinct from any runtime event occurrence.
#[derive(Debug)]
pub struct EventType {
    pub name: String,
    /// Identifier of this event type in the element arena.
    pub dbid: usize,
}

impl EventType {
    pub fn new(name: &str, dbid: usize) -> (e: EventType)
        ensures
            e.name@ == name@,
            e.dbid == dbid,
    {
        EventType { name: name.to_owned(), dbid }
    }
}

/// Which canned report a caller asks for.
pub enum ReportType {
    Full,
    States,
}

} // verus!
