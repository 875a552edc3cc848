//! The error type of the consensus core.

use vstd::prelude::*;
use vstd::std_specs::cmp::PartialEqSpecImpl;

verus! {

/// Consensus error.
#[derive(Debug)]
pub enum ConsensusError {
    /// The address is not in the authority list.
    InvalidAddress,
    /// A channel between two tasks broke down.
    ChannelErr(String),
    /// Feeding a trigger to the state machine failed.
    TriggerSMRErr(String),
    /// Watching for state machine events failed.
    MonitorEventErr(String),
    /// Emitting a state machine event failed.
    ThrowEventErr(String),
    /// A proposal was rejected.
    ProposalErr(String),
    /// A prevote was rejected.
    PrevoteErr(String),
    /// A precommit was rejected.
    PrecommitErr(String),
    /// A choke was rejected.
    BrakeErr(String),
    /// The local round and the round of a vote differ.
    RoundDiff {
        /// Local round.
        local: u64,
        /// Round of the vote.
        vote: u64,
    },
    /// The state machine's self check failed.
    SelfCheckErr(String),
    /// An invariant of the protocol was found broken.
    CorrectnessErr(String),
    /// Timer failure.
    TimerErr(String),
    /// State failure.
    StateErr(String),
    /// A second, different proposal at the given height and round.
    MultiProposal(u64, u64),
    /// Something that must be stored is missing.
    StorageErr(String),
    /// Persisting the write-ahead log failed.
    SaveWalErr {
        /// Height of the record.
        height: u64,
        /// Round of the record.
        round: u64,
        /// Step of the record.
        step: String,
    },
    /// Reading the write-ahead log failed.
    LoadWalErr(String),
    /// Signing or verifying failed.
    CryptoErr(String),
    /// An aggregated signature was rejected.
    AggregatedSignatureErr(String),
    /// Other error.
    Other(String),
}

/// Result of the consensus core.
pub type ConsensusResult<T> = Result<T, ConsensusError>;

impl ConsensusError {
    /// The two errors are of the same kind and say the same.
    pub open spec fn same_text(self, other: Self) -> bool {
        match (self, other) {
            (ConsensusError::InvalidAddress, ConsensusError::InvalidAddress) => true,
            (ConsensusError::ChannelErr(x), ConsensusError::ChannelErr(y)) => x@ == y@,
            (ConsensusError::TriggerSMRErr(x), ConsensusError::TriggerSMRErr(y)) => x@ == y@,
            (ConsensusError::MonitorEventErr(x), ConsensusError::MonitorEventErr(y)) => x@ == y@,
            (ConsensusError::ThrowEventErr(x), ConsensusError::ThrowEventErr(y)) => x@ == y@,
            (ConsensusError::ProposalErr(x), ConsensusError::ProposalErr(y)) => x@ == y@,
            (ConsensusError::PrevoteErr(x), ConsensusError::PrevoteErr(y)) => x@ == y@,
            (ConsensusError::PrecommitErr(x), ConsensusError::PrecommitErr(y)) => x@ == y@,
            (ConsensusError::BrakeErr(x), ConsensusError::BrakeErr(y)) => x@ == y@,
            (
                ConsensusError::RoundDiff { local: m, vote: n },
                ConsensusError::RoundDiff { local: p, vote: q },
            ) => m == p && n == q,
            (ConsensusError::SelfCheckErr(x), ConsensusError::SelfCheckErr(y)) => x@ == y@,
            (ConsensusError::CorrectnessErr(x), ConsensusError::CorrectnessErr(y)) => x@ == y@,
            (ConsensusError::TimerErr(x), ConsensusError::TimerErr(y)) => x@ == y@,
            (ConsensusError::StateErr(x), ConsensusError::StateErr(y)) => x@ == y@,
            (ConsensusError::MultiProposal(a, b), ConsensusError::MultiProposal(c, d)) => a == c
                && b == d,
            (ConsensusError::StorageErr(x), ConsensusError::StorageErr(y)) => x@ == y@,
            (
                ConsensusError::SaveWalErr { height: a, round: b, step: x },
                ConsensusError::SaveWalErr { height: c, round: d, step: y },
            ) => a == c && b == d && x@ == y@,
            (ConsensusError::LoadWalErr(x), ConsensusError::LoadWalErr(y)) => x@ == y@,
            (ConsensusError::CryptoErr(x), ConsensusError::CryptoErr(y)) => x@ == y@,
            (ConsensusError::AggregatedSignatureErr(x),
                ConsensusError::AggregatedSignatureErr(y)) => x@
                == y@,
            (ConsensusError::Other(x), ConsensusError::Other(y)) => x@ == y@,
            _ => false,
        }
    }

    /// What `==` means on errors. For the kinds that name a rejected message, a broken channel
    /// towards the state machine or a failed self check, the kind alone decides. `RoundDiff`,
    /// `Other` and `CorrectnessErr` are equal when their details are equal too. Every other pair
    /// is unequal, also two errors of the same remaining kind.
    pub open spec fn same(&self, other: &Self) -> bool {
        match (*self, *other) {
            (ConsensusError::InvalidAddress, ConsensusError::InvalidAddress) => true,
            (ConsensusError::TriggerSMRErr(_), ConsensusError::TriggerSMRErr(_)) => true,
            (ConsensusError::MonitorEventErr(_), ConsensusError::MonitorEventErr(_)) => true,
            (ConsensusError::ThrowEventErr(_), ConsensusError::ThrowEventErr(_)) => true,
            (ConsensusError::ProposalErr(_), ConsensusError::ProposalErr(_)) => true,
            (ConsensusError::PrevoteErr(_), ConsensusError::PrevoteErr(_)) => true,
            (ConsensusError::PrecommitErr(_), ConsensusError::PrecommitErr(_)) => true,
            (ConsensusError::SelfCheckErr(_), ConsensusError::SelfCheckErr(_)) => true,
            (
                ConsensusError::RoundDiff { local: m, vote: n },
                ConsensusError::RoundDiff { local: p, vote: q },
            ) => m == p && n == q,
            (ConsensusError::Other(x), ConsensusError::Other(y)) => x@ == y@,
            (ConsensusError::CorrectnessErr(x), ConsensusError::CorrectnessErr(y)) => x@ == y@,
            _ => false,
        }
    }
}

impl Clone for ConsensusError {
    fn clone(&self) -> (r: Self)
        ensures
            r.same_text(*self),
    {
        match self {
            ConsensusError::InvalidAddress => ConsensusError::InvalidAddress,
            ConsensusError::ChannelErr(s) => ConsensusError::ChannelErr(s.clone()),
            ConsensusError::TriggerSMRErr(s) => ConsensusError::TriggerSMRErr(s.clone()),
            ConsensusError::MonitorEventErr(s) => ConsensusError::MonitorEventErr(s.clone()),
            ConsensusError::ThrowEventErr(s) => ConsensusError::ThrowEventErr(s.clone()),
            ConsensusError::ProposalErr(s) => ConsensusError::ProposalErr(s.clone()),
            ConsensusError::PrevoteErr(s) => ConsensusError::PrevoteErr(s.clone()),
            ConsensusError::PrecommitErr(s) => ConsensusError::PrecommitErr(s.clone()),
            ConsensusError::BrakeErr(s) => ConsensusError::BrakeErr(s.clone()),
            ConsensusError::RoundDiff { local, vote } => ConsensusError::RoundDiff {
                local: *local,
                vote: *vote,
            },
            ConsensusError::SelfCheckErr(s) => ConsensusError::SelfCheckErr(s.clone()),
            ConsensusError::CorrectnessErr(s) => ConsensusError::CorrectnessErr(s.clone()),
            ConsensusError::TimerErr(s) => ConsensusError::TimerErr(s.clone()),
            ConsensusError::StateErr(s) => ConsensusError::StateErr(s.clone()),
            ConsensusError::MultiProposal(h, r) => ConsensusError::MultiProposal(*h, *r),
            ConsensusError::StorageErr(s) => ConsensusError::StorageErr(s.clone()),
            ConsensusError::SaveWalErr { height, round, step } => ConsensusError::SaveWalErr {
                height: *height,
                round: *round,
                step: step.clone(),
            },
            ConsensusError::LoadWalErr(s) => ConsensusError::LoadWalErr(s.clone()),
            ConsensusError::CryptoErr(s) => ConsensusError::CryptoErr(s.clone()),
            ConsensusError::AggregatedSignatureErr(s) => ConsensusError::AggregatedSignatureErr(
                s.clone(),
            ),
            ConsensusError::Other(s) => ConsensusError::Other(s.clone()),
        }
    }
}

impl PartialEq for ConsensusError {
    fn eq(&self, other: &Self) -> (r: bool) {
        match (self, other) {
            (ConsensusError::InvalidAddress, ConsensusError::InvalidAddress) => true,
            (ConsensusError::TriggerSMRErr(_), ConsensusError::TriggerSMRErr(_)) => true,
            (ConsensusError::MonitorEventErr(_), ConsensusError::MonitorEventErr(_)) => true,
            (ConsensusError::ThrowEventErr(_), ConsensusError::ThrowEventErr(_)) => true,
            (ConsensusError::ProposalErr(_), ConsensusError::ProposalErr(_)) => true,
            (ConsensusError::PrevoteErr(_), ConsensusError::PrevoteErr(_)) => true,
            (ConsensusError::PrecommitErr(_), ConsensusError::PrecommitErr(_)) => true,
            (ConsensusError::SelfCheckErr(_), ConsensusError::SelfCheckErr(_)) => true,
            (
                ConsensusError::RoundDiff { local: m, vote: n },
                ConsensusError::RoundDiff { local: p, vote: q },
            ) => *m == *p && *n == *q,
            (ConsensusError::Other(x), ConsensusError::Other(y)) => *x == *y,
            (ConsensusError::CorrectnessErr(x), ConsensusError::CorrectnessErr(y)) => *x == *y,
            _ => false,
        }
    }
}

impl PartialEqSpecImpl for ConsensusError {
    open spec fn obeys_eq_spec() -> bool {
        true
    }

    open spec fn eq_spec(&self, other: &Self) -> bool {
        self.same(other)
    }
}

impl Eq for ConsensusError {

}

} // verus!
