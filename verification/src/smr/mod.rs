//! The state machine of replication.

pub mod laws;
pub mod smr_types;
pub mod state_machine;
pub mod timer;
