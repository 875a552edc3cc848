//! Steps, triggers and events of the state machine of replication.

use vstd::prelude::*;
use vstd::std_specs::convert::FromSpecImpl;
use crate::DurationConfig;
use crate::types::ViewChangeReason;
use crate::wal::wal_type::{SMRBase, SMRBaseView};

verus! {

/// SMR steps. The default step is the commit step, because the machine needs a rich status to start a
/// new block.
#[derive(Clone, Copy, Debug, PartialEq, Eq, PartialOrd, Ord, Structural)]
pub enum Step {
    /// Propose step: the leader proposes a block, the replicas wait for it.
    Propose,
    /// Prevote step: replicas prevote, the leader aggregates the prevotes.
    Prevote,
    /// Precommit step: replicas precommit, the leader aggregates the precommits.
    Precommit,
    /// Brake step: the round has failed and the replica waits for the others.
    Brake,
    /// Commit step: the block is committed and the replica waits for the rich status.
    Commit,
}

impl Default for Step {
    fn default() -> (r: Step)
        ensures
            r == Step::Commit,
    {
        Step::Commit
    }
}

impl View for Step {
    type V = Step;

    open spec fn view(&self) -> Step {
        *self
    }
}

impl Step {
    /// The number that stands for the step: its place in the order of the steps.
    pub open spec fn code(self) -> u8 {
        match self {
            Step::Propose => 0,
            Step::Prevote => 1,
            Step::Precommit => 2,
            Step::Brake => 3,
            Step::Commit => 4,
        }
    }

    /// The step's number.
    pub fn to_u8(self) -> (r: u8)
        ensures
            r == self.code(),
    {
        match self {
            Step::Propose => 0,
            Step::Prevote => 1,
            Step::Precommit => 2,
            Step::Brake => 3,
            Step::Commit => 4,
        }
    }

    /// The step for a number below 5.
    pub fn from_u8(s: u8) -> (r: Step)
        requires
            s <= 4,
        ensures
            r.code() == s,
    {
        match s {
            0 => Step::Propose,
            1 => Step::Prevote,
            2 => Step::Precommit,
            3 => Step::Brake,
            _ => Step::Commit,
        }
    }

    /// The step's name.
    pub fn name(self) -> (r: String)
        ensures
            r@ == self.spec_name(),
    {
        match self {
            Step::Propose => "Propose".to_string(),
            Step::Prevote => "Prevote".to_string(),
            Step::Precommit => "Precommit".to_string(),
            Step::Brake => "Brake".to_string(),
            Step::Commit => "Commit".to_string(),
        }
    }

    pub open spec fn spec_name(self) -> Seq<char> {
        match self {
            Step::Propose => "Propose"@,
            Step::Prevote => "Prevote"@,
            Step::Precommit => "Precommit"@,
            Step::Brake => "Brake"@,
            Step::Commit => "Commit"@,
        }
    }
}

impl From<Step> for u8 {
    fn from(step: Step) -> (r: u8) {
        step.to_u8()
    }
}

impl FromSpecImpl<Step> for u8 {
    open spec fn obeys_from_spec() -> bool {
        true
    }

    open spec fn from_spec(step: Step) -> u8 {
        step.code()
    }
}

/// Where a new round comes from, with the round of the certificate.
#[derive(Clone, Copy, Debug, Hash, PartialEq, Eq, Structural)]
pub enum FromWhere {
    /// From the prevote quorum certificate of the round.
    PrevoteQC(u64),
    /// From the precommit quorum certificate of the round.
    PrecommitQC(u64),
    /// From the choke quorum certificate of the round.
    ChokeQC(u64),
}

impl FromWhere {
    pub open spec fn round(self) -> u64 {
        match self {
            FromWhere::PrevoteQC(round) => round,
            FromWhere::PrecommitQC(round) => round,
            FromWhere::ChokeQC(round) => round,
        }
    }

    pub open spec fn reason(self, old_round: u64) -> ViewChangeReason {
        match self {
            FromWhere::PrevoteQC(round) => ViewChangeReason::UpdateFromHigherPrevoteQC(
                old_round,
                round,
            ),
            FromWhere::PrecommitQC(round) => ViewChangeReason::UpdateFromHigherPrecommitQC(
                old_round,
                round,
            ),
            FromWhere::ChokeQC(round) => ViewChangeReason::UpdateFromHigherChokeQC(
                old_round,
                round,
            ),
        }
    }

    /// The round of the certificate.
    pub fn get_round(&self) -> (r: u64)
        ensures
            r == self.round(),
    {
        match self {
            FromWhere::PrevoteQC(round) => *round,
            FromWhere::PrecommitQC(round) => *round,
            FromWhere::ChokeQC(round) => *round,
        }
    }

    /// The reason to report when the certificate took the replica from `old_round` to its round.
    pub fn to_reason(&self, old_round: u64) -> (r: ViewChangeReason)
        ensures
            r == self.reason(old_round),
    {
        match self {
            FromWhere::PrevoteQC(round) => ViewChangeReason::UpdateFromHigherPrevoteQC(
                old_round,
                *round,
            ),
            FromWhere::PrecommitQC(round) => ViewChangeReason::UpdateFromHigherPrecommitQC(
                old_round,
                *round,
            ),
            FromWhere::ChokeQC(round) => ViewChangeReason::UpdateFromHigherChokeQC(
                old_round,
                *round,
            ),
        }
    }
}

/// SMR event that the state and the timer watch.
/// The `height` field is for the timer: the state ignores it, except in a brake event.
#[derive(Debug, PartialEq, Eq)]
pub enum SMREvent {
    /// New round event,
    /// for state: update round,
    /// for timer: set a propose step timer.
    NewRoundInfo {
        height: u64,
        round: u64,
        lock_round: Option<u64>,
        lock_proposal: Option<crate::types::Hash>,
        from_where: FromWhere,
        new_interval: Option<u64>,
        new_config: Option<DurationConfig>,
    },
    /// Prevote event,
    /// for state: transmit a prevote vote,
    /// for timer: set a prevote step timer.
    PrevoteVote { height: u64, round: u64, block_hash: crate::types::Hash,
        lock_round: Option<u64> },
    /// Precommit event,
    /// for state: transmit a precommit vote,
    /// for timer: set a precommit step timer.
    PrecommitVote { height: u64, round: u64, block_hash: crate::types::Hash,
        lock_round: Option<u64> },
    /// Commit event,
    /// for state: do commit,
    /// for timer: do nothing.
    Commit(crate::types::Hash),
    /// Brake event,
    /// for state: broadcast a choke,
    /// for timer: set a retry timer.
    Brake { height: u64, round: u64, lock_round: Option<u64> },
    /// Stop event, for both: stop.
    Stop,
}

pub enum SMREventView {
    NewRoundInfo {
        height: u64,
        round: u64,
        lock_round: Option<u64>,
        lock_proposal: Option<Seq<u8>>,
        from_where: FromWhere,
        new_interval: Option<u64>,
        new_config: Option<DurationConfig>,
    },
    PrevoteVote { height: u64, round: u64, block_hash: Seq<u8>, lock_round: Option<u64> },
    PrecommitVote { height: u64, round: u64, block_hash: Seq<u8>, lock_round: Option<u64> },
    Commit(Seq<u8>),
    Brake { height: u64, round: u64, lock_round: Option<u64> },
    Stop,
}

impl View for SMREvent {
    type V = SMREventView;

    open spec fn view(&self) -> SMREventView {
        match self {
            SMREvent::NewRoundInfo {
                height,
                round,
                lock_round,
                lock_proposal,
                from_where,
                new_interval,
                new_config,
            } => SMREventView::NewRoundInfo {
                height: *height,
                round: *round,
                lock_round: *lock_round,
                lock_proposal: match lock_proposal {
                    Some(h) => Some(h@),
                    None => None,
                },
                from_where: *from_where,
                new_interval: *new_interval,
                new_config: *new_config,
            },
            SMREvent::PrevoteVote { height, round, block_hash, lock_round } => {
                SMREventView::PrevoteVote {
                    height: *height,
                    round: *round,
                    block_hash: block_hash@,
                    lock_round: *lock_round,
                }
            },
            SMREvent::PrecommitVote { height, round, block_hash, lock_round } => {
                SMREventView::PrecommitVote {
                    height: *height,
                    round: *round,
                    block_hash: block_hash@,
                    lock_round: *lock_round,
                }
            },
            SMREvent::Commit(hash) => SMREventView::Commit(hash@),
            SMREvent::Brake { height, round, lock_round } => SMREventView::Brake {
                height: *height,
                round: *round,
                lock_round: *lock_round,
            },
            SMREvent::Stop => SMREventView::Stop,
        }
    }
}

/// SMR new status.
#[derive(Clone, Copy, Debug, PartialEq, Eq, Structural)]
pub struct SMRStatus {
    /// New height.
    pub height: u64,
    /// New height interval.
    pub new_interval: Option<u64>,
    /// New timeout configuration.
    pub new_config: Option<DurationConfig>,
}

impl SMRStatus {
    /// A status that changes the height and nothing else.
    pub fn new(height: u64) -> (r: Self)
        ensures
            r == (SMRStatus { height, new_interval: None, new_config: None }),
    {
        SMRStatus { height, new_interval: None, new_config: None }
    }
}

/// SMR trigger types.
#[derive(Clone, Copy, Debug, PartialEq, Eq, Structural)]
pub enum TriggerType {
    /// Proposal trigger.
    Proposal,
    /// Prevote quorum certificate trigger.
    PrevoteQC,
    /// Precommit quorum certificate trigger.
    PrecommitQC,
    /// New height trigger.
    NewHeight(SMRStatus),
    /// Wal information.
    WalInfo,
    /// Brake timeout.
    BrakeTimeout,
    /// Continue new round trigger.
    ContinueRound,
    /// Stop process.
    Stop,
}

impl TriggerType {
    /// Whether the trigger is one of the three that a step's timer can fire, which have a number.
    pub open spec fn is_step_trigger(self) -> bool {
        self is Proposal || self is PrevoteQC || self is PrecommitQC
    }

    /// The number of a step trigger: that of the step that it ends.
    pub open spec fn code(self) -> u8
        recommends
            self.is_step_trigger(),
    {
        match self {
            TriggerType::Proposal => 0,
            TriggerType::PrevoteQC => 1,
            _ => 2,
        }
    }

    /// The number of a step trigger.
    pub fn to_u8(self) -> (r: u8)
        requires
            self.is_step_trigger(),
        ensures
            r == self.code(),
    {
        match self {
            TriggerType::Proposal => 0u8,
            TriggerType::PrevoteQC => 1u8,
            _ => 2u8,
        }
    }

    /// The step trigger of a number below 3.
    pub fn from_u8(s: u8) -> (r: TriggerType)
        requires
            s <= 2,
        ensures
            r.is_step_trigger(),
            r.code() == s,
    {
        match s {
            0 => TriggerType::Proposal,
            1 => TriggerType::PrevoteQC,
            _ => TriggerType::PrecommitQC,
        }
    }
}

/// SMR trigger sources.
#[derive(Clone, Copy, Debug, PartialEq, Eq, Structural)]
pub enum TriggerSource {
    /// SMR triggered by state.
    State,
    /// SMR triggered by timer.
    Timer,
}

/// A SMR trigger. The meaning of `hash` and `lock_round` depends on the trigger type.
/// For a `Proposal`: `hash` is the proposal's block hash, `lock_round` its lock round if it has one.
/// For a `PrevoteQC` or `PrecommitQC`: `hash` is the certificate's block hash.
/// For every other type `hash` is empty and `lock_round` is `None`.
#[derive(Debug, PartialEq, Eq)]
pub struct SMRTrigger {
    /// SMR trigger type.
    pub trigger_type: TriggerType,
    /// SMR trigger source.
    pub source: TriggerSource,
    /// SMR trigger hash, the meaning shown above.
    pub hash: crate::types::Hash,
    /// SMR trigger lock round, the meaning shown above.
    pub lock_round: Option<u64>,
    /// The round that the trigger speaks of.
    pub round: u64,
    /// The height that the trigger speaks of, by which outdated triggers are told.
    pub height: u64,
    /// What was recovered from the write-ahead log, for a `WalInfo` trigger.
    pub wal_info: Option<SMRBase>,
}

pub struct SMRTriggerView {
    pub trigger_type: TriggerType,
    pub source: TriggerSource,
    pub hash: Seq<u8>,
    pub lock_round: Option<u64>,
    pub round: u64,
    pub height: u64,
    pub wal_info: Option<SMRBaseView>,
}

impl View for SMRTrigger {
    type V = SMRTriggerView;

    open spec fn view(&self) -> SMRTriggerView {
        SMRTriggerView {
            trigger_type: self.trigger_type,
            source: self.source,
            hash: self.hash@,
            lock_round: self.lock_round,
            round: self.round,
            height: self.height,
            wal_info: match self.wal_info {
                Some(b) => Some(b@),
                None => None,
            },
        }
    }
}

/// The lock of a replica: the round and the block hash of the latest prevote certificate that it
/// has seen at the current height.
#[derive(Debug, PartialEq, Eq)]
pub struct Lock {
    /// Lock round.
    pub round: u64,
    /// Lock hash.
    pub hash: crate::types::Hash,
}

pub struct LockView {
    pub round: u64,
    pub hash: Seq<u8>,
}

impl View for Lock {
    type V = LockView;

    open spec fn view(&self) -> LockView {
        LockView { round: self.round, hash: self.hash@ }
    }
}

impl Clone for Lock {
    fn clone(&self) -> (r: Self)
        ensures
            r@ == self@,
    {
        Lock { round: self.round, hash: self.hash.clone() }
    }
}

} // verus!
