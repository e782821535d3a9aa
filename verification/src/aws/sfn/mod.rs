//! Step Functions state machines.

pub mod schema;
pub mod state_machine;
