//! The state of a replica: what it has collected, and what it decides on each message and event.

pub mod collection;
pub mod laws;
pub mod process;
pub mod quorum;
pub mod verify;
