//! The record of the write-ahead log.

use vstd::prelude::*;
use vstd::string::*;
use crate::smr::smr_types::{Lock, LockView, Step};
use crate::types::{AggregatedVote, AggregatedVoteView, UpdateFrom, UpdateFromView};
use crate::utils::text::{decimal, decimal_text, join4};

verus! {

/// The lock as the write-ahead log records it: with the certificate and the block.
#[derive(Debug, PartialEq, Eq)]
pub struct WalLock {
    pub lock_round: u64,
    pub lock_votes: AggregatedVote,
    pub content: Vec<u8>,
}

pub struct WalLockView {
    pub lock_round: u64,
    pub lock_votes: AggregatedVoteView,
    pub content: Seq<u8>,
}

impl View for WalLock {
    type V = WalLockView;

    open spec fn view(&self) -> WalLockView {
        WalLockView {
            lock_round: self.lock_round,
            lock_votes: self.lock_votes@,
            content: self.content@,
        }
    }
}

impl Clone for WalLock {
    fn clone(&self) -> (r: Self)
        ensures
            r@ == self@,
    {
        WalLock {
            lock_round: self.lock_round,
            lock_votes: self.lock_votes.clone(),
            content: self.content.clone(),
        }
    }
}

impl WalLockView {
    pub open spec fn to_lock(self) -> LockView {
        LockView { round: self.lock_round, hash: self.lock_votes.block_hash }
    }
}

impl WalLock {
    /// The lock of the state machine: the lock round and the certificate's block hash.
    pub fn to_lock(&self) -> (r: Lock)
        ensures
            r@ == self@.to_lock(),
    {
        Lock { round: self.lock_round, hash: self.lock_votes.block_hash.clone() }
    }
}

/// The record of the write-ahead log: where the replica stands.
#[derive(Debug, PartialEq, Eq)]
pub struct WalInfo {
    /// height
    pub height: u64,
    /// round
    pub round: u64,
    /// step
    pub step: Step,
    /// lock
    pub lock: Option<WalLock>,
    /// from
    pub from: UpdateFrom,
}

pub struct WalInfoView {
    pub height: u64,
    pub round: u64,
    pub step: Step,
    pub lock: Option<WalLockView>,
    pub from: UpdateFromView,
}

impl View for WalInfo {
    type V = WalInfoView;

    open spec fn view(&self) -> WalInfoView {
        WalInfoView {
            height: self.height,
            round: self.round,
            step: self.step,
            lock: match self.lock {
                Some(l) => Some(l@),
                None => None,
            },
            from: self.from@,
        }
    }
}

impl Clone for WalInfo {
    fn clone(&self) -> (r: Self)
        ensures
            r@ == self@,
    {
        WalInfo {
            height: self.height,
            round: self.round,
            step: self.step,
            lock: match &self.lock {
                Some(l) => Some(l.clone()),
                None => None,
            },
            from: self.from.clone(),
        }
    }
}

impl WalInfoView {
    pub open spec fn to_smr_base(self) -> SMRBaseView {
        SMRBaseView {
            height: self.height,
            round: self.round,
            step: self.step,
            polc: match self.lock {
                Some(l) => Some(l.to_lock()),
                None => None,
            },
        }
    }
}

impl WalInfo {
    /// The part of the record that the state machine resumes from.
    pub fn into_smr_base(self) -> (r: SMRBase)
        ensures
            r@ == self@.to_smr_base(),
    {
        SMRBase {
            height: self.height,
            round: self.round,
            step: self.step,
            polc: match &self.lock {
                Some(l) => Some(l.to_lock()),
                None => None,
            },
        }
    }

    /// The record in words: its height, round and step.
    pub fn describe(&self) -> (r: String)
        ensures
            r@ == self@.described(),
    {
        let mut r = join4(
            "wal info height ",
            decimal_text(self.height).as_str(),
            ", round ",
            decimal_text(self.round).as_str(),
        );
        r.append(", step ");
        r.append(self.step.name().as_str());
        r
    }
}

/// The words for a record of a height, a round and a step's name.
pub open spec fn record_words(height: u64, round: u64, step: Seq<char>) -> Seq<char> {
    "wal info height "@ + decimal(height as nat) + ", round "@ + decimal(round as nat) + ", step "@
        + step
}

impl WalInfoView {
    /// The record in words.
    pub open spec fn described(self) -> Seq<char> {
        record_words(self.height, self.round, self.step.spec_name())
    }
}

/// What the state machine resumes from.
#[derive(Debug, PartialEq, Eq)]
pub struct SMRBase {
    pub height: u64,
    pub round: u64,
    pub step: Step,
    pub polc: Option<Lock>,
}

pub struct SMRBaseView {
    pub height: u64,
    pub round: u64,
    pub step: Step,
    pub polc: Option<LockView>,
}

impl View for SMRBase {
    type V = SMRBaseView;

    open spec fn view(&self) -> SMRBaseView {
        SMRBaseView {
            height: self.height,
            round: self.round,
            step: self.step,
            polc: match self.polc {
                Some(l) => Some(l@),
                None => None,
            },
        }
    }
}

impl Clone for SMRBase {
    fn clone(&self) -> (r: Self)
        ensures
            r@ == self@,
    {
        SMRBase {
            height: self.height,
            round: self.round,
            step: self.step,
            polc: match &self.polc {
                Some(l) => Some(l.clone()),
                None => None,
            },
        }
    }
}

} // verus!
