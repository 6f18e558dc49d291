//! A UML-style hierarchical state machine model: a flat element arena holding
//! states, regions, pseudostates, transitions and event types, together with
//! the builder operations that grow it and the containment, ancestry,
//! least-common-ancestor and active-configuration queries over it.

mod action;
mod active;
mod ancestry;
mod builder;
mod element;
mod errors;
mod machine;
mod queries;
mod stores;
mod transition;

pub use action::Behavior;
pub use action::Effect;
pub use action::Entry;
pub use action::Exit;
pub use action::Guard;
pub use action::OptBehavior;
pub use action::OptEffect;
pub use action::OptGuard;
pub use element::Container;
pub use element::Element;
pub use element::ElementType;
pub use element::VertexType;
pub use errors::StateMachineError;
pub use errors::StateMachineResult;
pub use machine::Db;
pub use machine::StateMachine;
pub use stores::EventType;
pub use stores::Region;
pub use stores::ReportType;
pub use stores::State;
pub use stores::StateMachineDef;
pub use stores::VertexDef;
pub use transition::Transition;
