//! The core of a leader-based, round-per-height Byzantine fault tolerant consensus engine.
//!
//! The replicas of an authority list commit one block for each height. Within a height they go
//! through rounds, each with a proposer, and within a round through the steps propose, prevote,
//! precommit and, where the round fails, brake. A block is committed once more than two thirds of
//! the vote weight have precommitted it.
//!
//! The core does no outside work. [`state::process::State`] takes messages, events and answers in
//! and hands back what is to be done; [`smr::state_machine::StateMachine`] turns triggers into
//! events; [`smr::timer::Timer`] says which timer to set; [`codec`] is the wire format; [`words`]
//! says in words what a value is, for logs and reports.

use vstd::prelude::*;

pub mod byte_order;
pub mod codec;
pub mod error;
pub mod smr;
pub mod state;
pub mod types;
pub mod utils;
pub mod wal;
pub mod words;

verus! {

/// The height at which a fresh replica starts.
pub const INIT_HEIGHT: u64 = 0;

/// The round at which every height starts.
pub const INIT_ROUND: u64 = 0;

/// The timeouts of the steps, each as a ratio of the block interval, in thousandths.
#[derive(Clone, Copy, Debug, PartialEq, Eq, Structural)]
pub struct DurationConfig {
    /// The ratio of the propose step's timeout.
    pub propose_ratio: u64,
    /// The ratio of the prevote step's timeout.
    pub prevote_ratio: u64,
    /// The ratio of the precommit step's timeout.
    pub precommit_ratio: u64,
    /// The ratio of the brake step's retry timeout.
    pub brake_ratio: u64,
}

impl View for DurationConfig {
    type V = DurationConfig;

    open spec fn view(&self) -> DurationConfig {
        *self
    }
}

} // verus!
