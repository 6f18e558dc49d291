//! The error taxonomy shared by every builder operation and query.

use vstd::prelude::*;

verus! {

/// Every failure a builder operation or query can report.
///
/// Identity errors (`InvalidDbId`, `InvalidState`, `InvalidVertex`,
/// `InvalidRegion`, `ElementNotFound`) say that an identifier is out of range
/// or denotes an element of the wrong kind; the remaining variants report
/// structural conflicts such as duplicate names or an ambiguous parent.
#[derive(Debug, Clone)]
pub enum StateMachineError {
    Duplicate(String),
    VertexAlreadyAdded(String),
    VertexAlreadyInDifferentRegion(String),
    ElementNotFound(usize),
    InvalidState(usize),
    InvalidVertex(usize),
    InvalidRegion(usize),
    NoInitialState(usize),
    InvalidDbId(usize),
    NoCommonAncestor(usize, usize),
    StateAlreadyExists(String),
    RegionAlreadyExists(String),
    ContainsNoRegions(usize),
    ContainsMultipleRegions(usize),
    CannotAddState(usize),
}

/// The result type used throughout the library.
pub type StateMachineResult<T> = Result<T, StateMachineError>;

} // verus!
