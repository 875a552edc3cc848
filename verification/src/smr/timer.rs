//! The timer of the steps: how long a step may take, and what is fired when its time is up.

use vstd::prelude::*;
use crate::DurationConfig;
use crate::smr::smr_types::{
    SMREvent, SMREventView, SMRTrigger, SMRTriggerView, Step, TriggerSource, TriggerType,
};

verus! {

impl DurationConfig {
    /// A configuration of the four ratios, each in thousandths of the block interval.
    pub fn new(propose_ratio: u64, prevote_ratio: u64, precommit_ratio: u64, brake_ratio: u64)
        -> (r:
        Self)
        ensures
            r == (DurationConfig { propose_ratio, prevote_ratio, precommit_ratio, brake_ratio }),
    {
        DurationConfig { propose_ratio, prevote_ratio, precommit_ratio, brake_ratio }
    }

    /// The ratio of a step's timeout. The commit step has no timeout.
    pub open spec fn ratio(self, step: Step) -> u64 {
        match step {
            Step::Propose => self.propose_ratio,
            Step::Prevote => self.prevote_ratio,
            Step::Precommit => self.precommit_ratio,
            Step::Brake => self.brake_ratio,
            Step::Commit => 0,
        }
    }

    /// The timeout of a step in milliseconds: the block interval times the step's ratio, divided
    /// by a thousand, and no more than a `u64` holds.
    pub open spec fn timeout_of(self, interval: u64, step: Step) -> u64 {
        if interval * self.ratio(step) / 1000 > u64::MAX {
            u64::MAX
        } else {
            (interval * self.ratio(step) / 1000) as u64
        }
    }

    /// The timeout of a step in milliseconds, for a block interval in milliseconds.
    pub fn timeout(&self, interval: u64, step: Step) -> (r: u64)
        ensures
            r == self.timeout_of(interval, step),
    {
        let ratio = match step {
            Step::Propose => self.propose_ratio,
            Step::Prevote => self.prevote_ratio,
            Step::Precommit => self.precommit_ratio,
            Step::Brake => self.brake_ratio,
            Step::Commit => 0,
        };
        assert(interval * ratio <= 0xffff_ffff_ffff_ffff * 0xffff_ffff_ffff_ffff) by (nonlinear_arith)
            requires
                interval <= 0xffff_ffff_ffff_ffff,
                ratio <= 0xffff_ffff_ffff_ffff,
        ;
        let scaled = (interval as u128) * (ratio as u128) / 1000;
        if scaled > u64::MAX as u128 {
            u64::MAX
        } else {
            scaled as u64
        }
    }
}

/// A timer that is set: after the delay, the trigger is to be fed to the state machine.
#[derive(Debug, PartialEq, Eq)]
pub struct Timeout {
    /// The delay in milliseconds.
    pub delay: u64,
    /// What to feed to the state machine when the delay is over.
    pub trigger: SMRTrigger,
}

/// The timer of the steps.
#[derive(Clone, Copy, Debug, PartialEq, Eq, Structural)]
pub struct Timer {
    /// The block interval in milliseconds.
    pub interval: u64,
    /// The ratios of the timeouts.
    pub config: DurationConfig,
}

/// The trigger that the timer fires: it names the height and round in which the timer was set,
/// so that the state machine can tell a timer that is out of date.
pub open spec fn timer_trigger(trigger_type: TriggerType, height: u64, round: u64)
    -> SMRTriggerView {
    SMRTriggerView {
        trigger_type,
        source: TriggerSource::Timer,
        hash: Seq::empty(),
        lock_round: None,
        round,
        height,
        wal_info: None,
    }
}

impl Timer {
    /// The timer after an event: a new round may bring a new block interval and new ratios.
    pub open spec fn after(self, event: SMREventView) -> Timer {
        match event {
            SMREventView::NewRoundInfo { new_interval, new_config, .. } => Timer {
                interval: match new_interval {
                    Some(interval) => interval,
                    None => self.interval,
                },
                config: match new_config {
                    Some(config) => config,
                    None => self.config,
                },
            },
            _ => self,
        }
    }

    /// What the timer sets on an event: the step that the event begins, with the trigger that
    /// ends the step when its time is up. A commit and a stop set nothing.
    pub open spec fn sets(self, event: SMREventView) -> Option<(Step, SMRTriggerView)> {
        match event {
            SMREventView::NewRoundInfo { height, round, .. } => Some(
                (Step::Propose, timer_trigger(TriggerType::Proposal, height, round)),
            ),
            SMREventView::PrevoteVote { height, round, .. } => Some(
                (Step::Prevote, timer_trigger(TriggerType::PrevoteQC, height, round)),
            ),
            SMREventView::PrecommitVote { height, round, .. } => Some(
                (Step::Precommit, timer_trigger(TriggerType::PrecommitQC, height, round)),
            ),
            SMREventView::Brake { height, round, .. } => Some(
                (Step::Brake, timer_trigger(TriggerType::BrakeTimeout, height, round)),
            ),
            _ => None,
        }
    }

    /// A timer for a block interval in milliseconds and the ratios of the timeouts.
    pub fn new(interval: u64, config: DurationConfig) -> (r: Self)
        ensures
            r == (Timer { interval, config }),
    {
        Timer { interval, config }
    }

    /// Takes in an event of the state machine: takes over a new block interval and new ratios,
    /// and says which timer to set.
    pub fn on_event(&mut self, event: &SMREvent) -> (r: Option<Timeout>)
        ensures
            *final(self) == old(self).after(event@),
            match old(self).sets(event@) {
                Some((step, trigger)) => r is Some && r->Some_0.trigger@
                    == trigger && r->Some_0.delay
                    == final(self).config.timeout_of(final(self).interval, step),
                None => r is None,
            },
    {
        let (step, trigger_type, height, round) = match event {
            SMREvent::NewRoundInfo {
                height,
                round,
                lock_round: _,
                lock_proposal: _,
                from_where: _,
                new_interval,
                new_config,
            } => {
                match new_interval {
                    Some(interval) => {
                        self.interval = *interval;
                    },
                    None => {},
                }
                match new_config {
                    Some(config) => {
                        self.config = *config;
                    },
                    None => {},
                }
                (Step::Propose, TriggerType::Proposal, *height, *round)
            },
            SMREvent::PrevoteVote { height, round, block_hash: _, lock_round: _ } => (
                Step::Prevote,
                TriggerType::PrevoteQC,
                *height,
                *round,
            ),
            SMREvent::PrecommitVote { height, round, block_hash: _, lock_round: _ } => (
                Step::Precommit,
                TriggerType::PrecommitQC,
                *height,
                *round,
            ),
            SMREvent::Brake { height, round, lock_round: _ } => (
                Step::Brake,
                TriggerType::BrakeTimeout,
                *height,
                *round,
            ),
            _ => {
                return None;
            },
        };
        Some(
            Timeout {
                delay: self.config.timeout(self.interval, step),
                trigger: SMRTrigger {
                    trigger_type,
                    source: TriggerSource::Timer,
                    hash: Vec::new(),
                    lock_round: None,
                    round,
                    height,
                    wal_info: None,
                },
            },
        )
    }
}

} // verus!
