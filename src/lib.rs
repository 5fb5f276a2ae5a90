//! Finite state machines over any state and input type, evolved by a total,
//! deterministic transition function, and composed in lockstep into
//! conjunctions and unions.
mod accept_states;
mod fsm;
pub mod accept_tags;
pub mod intersection;
pub mod machine;
pub mod transition;
pub mod union;

pub use accept_states::AcceptStates;
pub use fsm::FSM;
