//! Arena entries: every model element is a tagged record pointing into a
//! kind-specific store.

use vstd::prelude::*;

verus! {

/// The kind tag of a vertex: an ordinary state or one of the two supported
/// pseudostate kinds.
#[derive(Debug, Clone, Copy, PartialEq, Eq, Structural)]
pub enum VertexType {
    State,
    InitialState,
    FinalState,
}

/// The kind of an arena element, with the vertex kind nested inside.
#[derive(Debug, Clone, Copy, PartialEq, Eq, Structural)]
pub enum ElementType {
    Vertex(VertexType),
    Region,
    StateMachine,
    Transition,
    EventType,
}

/// One arena entry: a dense identifier, the kind tag, and the index of the
/// kind-specific record inside the matching store.
#[derive(Debug, Clone, Copy)]
pub struct Element {
    /// Index of this entry in the element arena.
    pub dbid: usize,
    /// Index into the store of the element's kind.
    pub idx: usize,
    pub element_type: ElementType,
}

impl Element {
    pub fn new(dbid: usize, idx: usize, element_type: ElementType) -> (e: Element)
        ensures
            e == (Element { dbid, idx, element_type }),
    {
        Element { dbid, idx, element_type }
    }
}

/// What a region is directly contained in: a composite state or the state
/// machine itself, never both.
#[derive(Debug, Clone, Copy)]
pub enum Container {
    State(usize),
    StateMachine(usize),
}

} // verus!
