//! The state machine of replication: where in a height and round a replica stands, what it is
//! locked on, and what each trigger makes of that.
//!
//! A trigger of another height than the machine's, and a trigger that does not fit the machine's
//! round or step, is ignored: it changes nothing and gives no event.

use vstd::prelude::*;
use crate::INIT_ROUND;
use crate::byte_order::bytes_eq;
use crate::error::ConsensusError;
use crate::smr::smr_types::{
    FromWhere, Lock, LockView, SMREvent, SMREventView, SMRTrigger, SMRTriggerView, Step,
    TriggerSource, TriggerType,
};

verus! {

/// The state machine of replication.
#[derive(Debug)]
pub struct StateMachine {
    /// The height that the machine works on.
    pub height: u64,
    /// The round that the machine is in.
    pub round: u64,
    /// The step that the machine is in.
    pub step: Step,
    /// The block hash that the replica votes for in the round; empty where it votes for no block.
    pub block_hash: crate::types::Hash,
    /// The lock: the round and block of the latest prevote certificate seen at the height.
    pub lock: Option<Lock>,
    /// Whether the machine was stopped.
    pub stopped: bool,
}

/// The state machine as a value of mathematics.
pub struct Machine {
    pub height: u64,
    pub round: u64,
    pub step: Step,
    pub block_hash: Seq<u8>,
    pub lock: Option<LockView>,
    pub stopped: bool,
}

impl View for StateMachine {
    type V = Machine;

    open spec fn view(&self) -> Machine {
        Machine {
            height: self.height,
            round: self.round,
            step: self.step,
            block_hash: self.block_hash@,
            lock: match self.lock {
                Some(l) => Some(l@),
                None => None,
            },
            stopped: self.stopped,
        }
    }
}

/// Why the machine refuses a trigger.
pub enum Refusal {
    /// A new height that does not come from the state.
    Source,
    /// A new height that is not above the machine's.
    Delayed,
    /// A proposal for no block.
    EmptyProposal,
    /// A proposal whose lock round is not before the proposal's round.
    LockRound,
    /// A proposal for another block than the locked one, with the lock round of the lock.
    Fork,
    /// A recovery trigger without anything to recover from.
    NoWal,
    /// A recovered lock that cannot be: one on no block, or one of a round that the recovered
    /// step cannot have seen.
    BadLock,
    /// A certificate of the last round that there is, which no round follows.
    LastRound,
}

impl Refusal {
    /// The error by which the machine says why it refuses.
    pub open spec fn told_by(self, e: ConsensusError) -> bool {
        match self {
            Refusal::Source => e is Other,
            Refusal::Delayed => e is Other,
            Refusal::EmptyProposal => e is ProposalErr,
            Refusal::LockRound => e is ProposalErr,
            Refusal::Fork => e is CorrectnessErr,
            Refusal::NoWal => e is Other,
            Refusal::BadLock => e is SelfCheckErr,
            Refusal::LastRound => e is Other,
        }
    }
}

/// What a trigger makes of a machine: the machine afterwards and the events, or a refusal, which
/// leaves the machine as it is and gives no event.
pub enum Move {
    To(Machine, Seq<SMREventView>),
    Refused(Refusal),
}

impl Machine {
    /// A lock is on a block, the machine votes for the locked block until it commits, and the
    /// lock is of an earlier round than the machine's, or of the machine's own round once the
    /// machine has seen that round's prevote certificate.
    pub open spec fn wf(self) -> bool {
        match self.lock {
            Some(l) => {
                &&& l.hash.len() > 0
                &&& !(self.step is Commit) ==> self.block_hash == l.hash
                &&& if self.step is Propose || self.step is Prevote {
                    l.round < self.round
                } else {
                    l.round <= self.round
                }
            },
            None => true,
        }
    }

    /// The round of the lock.
    pub open spec fn lock_round(self) -> Option<u64> {
        match self.lock {
            Some(l) => Some(l.round),
            None => None,
        }
    }

    /// The block of the lock.
    pub open spec fn lock_hash(self) -> Option<Seq<u8>> {
        match self.lock {
            Some(l) => Some(l.hash),
            None => None,
        }
    }

    /// The block that a replica votes for where nothing is proposed: the locked block, or none.
    pub open spec fn fallback(self) -> Seq<u8> {
        match self.lock {
            Some(l) => l.hash,
            None => Seq::empty(),
        }
    }

    /// The machine ignores the trigger.
    pub open spec fn ignore(self) -> Move {
        Move::To(self, Seq::empty())
    }

    /// The machine enters a round of its height: it stands in the propose step and votes for the
    /// locked block, if it is locked, and it tells of the round, with the lock and with the
    /// certificate that the round comes from.
    pub open spec fn enter(self, round: u64, from_where: FromWhere) -> Move {
        Move::To(
            Machine { round, step: Step::Propose, block_hash: self.fallback(), ..self },
            seq![
                SMREventView::NewRoundInfo {
                    height: self.height,
                    round,
                    lock_round: self.lock_round(),
                    lock_proposal: self.lock_hash(),
                    from_where,
                    new_interval: None,
                    new_config: None,
                },
            ],
        )
    }

    /// What a new height makes of the machine.
    pub open spec fn on_new_height(self, t: SMRTriggerView) -> Move {
        let status = t.trigger_type->NewHeight_0;
        if t.source != TriggerSource::State {
            Move::Refused(Refusal::Source)
        } else if status.height <= self.height {
            Move::Refused(Refusal::Delayed)
        } else {
            Move::To(
                Machine {
                    height: status.height,
                    round: INIT_ROUND,
                    step: Step::Propose,
                    block_hash: Seq::empty(),
                    lock: None,
                    stopped: self.stopped,
                },
                seq![
                    SMREventView::NewRoundInfo {
                        height: status.height,
                        round: INIT_ROUND,
                        lock_round: None,
                        lock_proposal: None,
                        from_where: FromWhere::PrecommitQC(u64::MAX),
                        new_interval: status.new_interval,
                        new_config: status.new_config,
                    },
                ],
            )
        }
    }

    /// What a recovery makes of the machine: the machine takes over the height, round, step and
    /// lock that were recovered, and gives no event.
    pub open spec fn on_wal(self, t: SMRTriggerView) -> Move {
        match t.wal_info {
            None => Move::Refused(Refusal::NoWal),
            Some(base) => {
                let m = Machine {
                    height: base.height,
                    round: base.round,
                    step: base.step,
                    block_hash: match base.polc {
                        Some(l) => l.hash,
                        None => Seq::empty(),
                    },
                    lock: base.polc,
                    stopped: self.stopped,
                };
                if m.wf() {
                    Move::To(m, Seq::empty())
                } else {
                    Move::Refused(Refusal::BadLock)
                }
            },
        }
    }

    /// What a proposal makes of the machine, in the propose step of the proposal's round. When
    /// the step's time is up the replica prevotes the locked block, or no block. A proposal from
    /// the state must be for a block, and its lock round before its round. The replica prevotes
    /// the proposed block if it is not locked, or if the proposal is for another block than the
    /// locked one and has a lock round after the lock's: then the lock is given up. Else it
    /// prevotes the locked block.
    pub open spec fn on_proposal(self, t: SMRTriggerView) -> Move {
        if !(self.step is Propose) || t.round != self.round {
            self.ignore()
        } else if t.source == TriggerSource::Timer {
            Move::To(
                Machine { step: Step::Prevote, block_hash: self.fallback(), ..self },
                seq![
                    SMREventView::PrevoteVote {
                        height: self.height,
                        round: self.round,
                        block_hash: self.fallback(),
                        lock_round: self.lock_round(),
                    },
                ],
            )
        } else if t.hash.len() == 0 {
            Move::Refused(Refusal::EmptyProposal)
        } else if t.lock_round is Some && t.lock_round->Some_0 >= self.round {
            Move::Refused(Refusal::LockRound)
        } else {
            match self.lock {
                Some(l) => {
                    if t.lock_round is Some && t.lock_round->Some_0 > l.round && t.hash != l.hash {
                        Move::To(
                            Machine { step: Step::Prevote, block_hash: t.hash, lock: None, ..self },
                            seq![
                                SMREventView::PrevoteVote {
                                    height: self.height,
                                    round: self.round,
                                    block_hash: t.hash,
                                    lock_round: None,
                                },
                            ],
                        )
                    } else if t.lock_round == Some(l.round) && t.hash != l.hash {
                        Move::Refused(Refusal::Fork)
                    } else {
                        Move::To(
                            Machine { step: Step::Prevote, block_hash: l.hash, ..self },
                            seq![
                                SMREventView::PrevoteVote {
                                    height: self.height,
                                    round: self.round,
                                    block_hash: l.hash,
                                    lock_round: Some(l.round),
                                },
                            ],
                        )
                    }
                },
                None => Move::To(
                    Machine { step: Step::Prevote, block_hash: t.hash, ..self },
                    seq![
                        SMREventView::PrevoteVote {
                            height: self.height,
                            round: self.round,
                            block_hash: t.hash,
                            lock_round: None,
                        },
                    ],
                ),
            }
        }
    }

    /// What a prevote certificate of the machine's round makes of the machine. When the prevote
    /// step's time is up the replica precommits no block. A certificate from the state counts
    /// before the precommit step: one for a block locks the replica on the block in this round,
    /// and the replica precommits the block; after one for no block it precommits no block. In
    /// the precommit step the certificate that the replica is locked on has the replica precommit
    /// the block once more: so a replica that has recovered in this step casts its vote again.
    pub open spec fn on_prevote_qc(self, t: SMRTriggerView) -> Move {
        if t.round != self.round {
            self.ignore()
        } else if t.source == TriggerSource::Timer {
            if !(self.step is Prevote) {
                self.ignore()
            } else {
                Move::To(
                    Machine { step: Step::Precommit, ..self },
                    seq![
                        SMREventView::PrecommitVote {
                            height: self.height,
                            round: self.round,
                            block_hash: Seq::empty(),
                            lock_round: self.lock_round(),
                        },
                    ],
                )
            }
        } else if !(self.step is Propose || self.step is Prevote) {
            if self.step is Precommit && t.hash.len() > 0 && self.lock == Some(
                LockView { round: self.round, hash: t.hash },
            ) {
                Move::To(
                    self,
                    seq![
                        SMREventView::PrecommitVote {
                            height: self.height,
                            round: self.round,
                            block_hash: t.hash,
                            lock_round: Some(self.round),
                        },
                    ],
                )
            } else {
                self.ignore()
            }
        } else if t.hash.len() == 0 {
            Move::To(
                Machine { step: Step::Precommit, ..self },
                seq![
                    SMREventView::PrecommitVote {
                        height: self.height,
                        round: self.round,
                        block_hash: Seq::empty(),
                        lock_round: self.lock_round(),
                    },
                ],
            )
        } else {
            Move::To(
                Machine {
                    step: Step::Precommit,
                    block_hash: t.hash,
                    lock: Some(LockView { round: self.round, hash: t.hash }),
                    ..self
                },
                seq![
                    SMREventView::PrecommitVote {
                        height: self.height,
                        round: self.round,
                        block_hash: t.hash,
                        lock_round: Some(self.round),
                    },
                ],
            )
        }
    }

    /// What a precommit certificate makes of the machine. When the precommit step's time is up
    /// the replica brakes. A certificate from the state counts until the replica has committed:
    /// one for a block commits the block; one for no block, unless it is of an earlier round,
    /// takes the replica to the round after the certificate's.
    pub open spec fn on_precommit_qc(self, t: SMRTriggerView) -> Move {
        if t.source == TriggerSource::Timer {
            if t.round != self.round || !(self.step is Precommit) {
                self.ignore()
            } else {
                Move::To(
                    Machine { step: Step::Brake, ..self },
                    seq![
                        SMREventView::Brake {
                            height: self.height,
                            round: self.round,
                            lock_round: self.lock_round(),
                        },
                    ],
                )
            }
        } else if self.step is Commit {
            self.ignore()
        } else if t.hash.len() > 0 {
            Move::To(
                Machine { step: Step::Commit, block_hash: t.hash, ..self },
                seq![SMREventView::Commit(t.hash)],
            )
        } else if t.round < self.round {
            self.ignore()
        } else if t.round == u64::MAX {
            Move::Refused(Refusal::LastRound)
        } else {
            self.enter((t.round + 1) as u64, FromWhere::PrecommitQC(t.round))
        }
    }

    /// What the brake step's retry timer makes of the machine: in the brake step of the round the
    /// replica brakes again.
    pub open spec fn on_brake_timeout(self, t: SMRTriggerView) -> Move {
        if t.round != self.round || !(self.step is Brake) {
            self.ignore()
        } else {
            Move::To(
                self,
                seq![
                    SMREventView::Brake {
                        height: self.height,
                        round: self.round,
                        lock_round: self.lock_round(),
                    },
                ],
            )
        }
    }

    /// What a choke certificate makes of the machine: unless the replica has committed, it enters
    /// the round that the trigger names, if that is a later round than its own.
    pub open spec fn on_continue_round(self, t: SMRTriggerView) -> Move {
        if self.step is Commit || t.round <= self.round {
            self.ignore()
        } else {
            self.enter(t.round, FromWhere::ChokeQC((t.round - 1) as u64))
        }
    }

    /// What a trigger makes of the machine.
    pub open spec fn next(self, t: SMRTriggerView) -> Move {
        if self.stopped {
            self.ignore()
        } else {
            match t.trigger_type {
                TriggerType::Stop => Move::To(
                    Machine { stopped: true, ..self },
                    seq![SMREventView::Stop],
                ),
                TriggerType::NewHeight(_) => self.on_new_height(t),
                TriggerType::WalInfo => self.on_wal(t),
                _ => if t.height != self.height {
                    self.ignore()
                } else {
                    match t.trigger_type {
                        TriggerType::Proposal => self.on_proposal(t),
                        TriggerType::PrevoteQC => self.on_prevote_qc(t),
                        TriggerType::PrecommitQC => self.on_precommit_qc(t),
                        TriggerType::BrakeTimeout => self.on_brake_timeout(t),
                        _ => self.on_continue_round(t),
                    }
                },
            }
        }
    }
}

/// The views of a list of events, in the list's order.
pub open spec fn event_views(events: Seq<SMREvent>) -> Seq<SMREventView> {
    Seq::new(events.len(), |i: int| events[i]@)
}

fn no_event() -> (r: Vec<SMREvent>)
    ensures
        event_views(r@) == Seq::<SMREventView>::empty(),
{
    let r: Vec<SMREvent> = Vec::new();
    assert(event_views(r@) =~= Seq::<SMREventView>::empty());
    r
}

fn one_event(event: SMREvent) -> (r: Vec<SMREvent>)
    ensures
        event_views(r@) == seq![event@],
{
    let mut r: Vec<SMREvent> = Vec::new();
    r.push(event);
    assert(event_views(r@) =~= seq![event@]);
    r
}

impl StateMachine {
    /// The machine is in order.
    pub open spec fn wf(&self) -> bool {
        self@.wf()
    }

    /// A machine before its first height: in the commit step of the height 0, where it waits for
    /// the status that starts a height.
    pub fn new() -> (r: Self)
        ensures
            r.wf(),
            r@ == (Machine {
                height: 0,
                round: INIT_ROUND,
                step: Step::Commit,
                block_hash: Seq::empty(),
                lock: None,
                stopped: false,
            }),
    {
        StateMachine {
            height: 0,
            round: INIT_ROUND,
            step: Step::Commit,
            block_hash: Vec::new(),
            lock: None,
            stopped: false,
        }
    }

    fn lock_round(&self) -> (r: Option<u64>)
        ensures
            r == self@.lock_round(),
    {
        match &self.lock {
            Some(l) => Some(l.round),
            None => None,
        }
    }

    fn lock_hash(&self) -> (r: Option<crate::types::Hash>)
        ensures
            match r {
                Some(h) => self@.lock_hash() == Some(h@),
                None => self@.lock_hash() is None,
            },
    {
        match &self.lock {
            Some(l) => Some(l.hash.clone()),
            None => None,
        }
    }

    fn fallback(&self) -> (r: crate::types::Hash)
        ensures
            r@ == self@.fallback(),
    {
        match &self.lock {
            Some(l) => l.hash.clone(),
            None => Vec::new(),
        }
    }

    fn enter(&mut self, round: u64, from_where: FromWhere) -> (r: Vec<SMREvent>)
        ensures
            old(self)@.enter(round, from_where) == Move::To(final(self)@, event_views(r@)),
    {
        let event = SMREvent::NewRoundInfo {
            height: self.height,
            round,
            lock_round: self.lock_round(),
            lock_proposal: self.lock_hash(),
            from_where,
            new_interval: None,
            new_config: None,
        };
        self.block_hash = self.fallback();
        self.round = round;
        self.step = Step::Propose;
        one_event(event)
    }

    /// Takes in a trigger: changes the machine and hands back the events that the state and the
    /// timer are to be told of, in their order. A trigger that the machine refuses is an error.
    pub fn trigger(&mut self, t: SMRTrigger) -> (res: Result<Vec<SMREvent>, ConsensusError>)
        requires
            old(self).wf(),
        ensures
            final(self).wf(),
            match old(self)@.next(t@) {
                Move::To(m, events) => res is Ok && final(self)@ == m && event_views(res->Ok_0@)
                    == events,
                Move::Refused(why) => res is Err && why.told_by(res->Err_0) && final(self)@
                    == old(self)@,
            },
    {
        if self.stopped {
            return Ok(no_event());
        }
        match t.trigger_type {
            TriggerType::Stop => {
                self.stopped = true;
                return Ok(one_event(SMREvent::Stop));
            },
            TriggerType::NewHeight(status) => {
                if !(t.source == TriggerSource::State) {
                    return Err(ConsensusError::Other("Rich status source error".to_string()));
                }
                if status.height <= self.height {
                    return Err(ConsensusError::Other("Delayed status".to_string()));
                }
                self.height = status.height;
                self.round = INIT_ROUND;
                self.step = Step::Propose;
                self.block_hash = Vec::new();
                self.lock = None;
                return Ok(
                    one_event(
                        SMREvent::NewRoundInfo {
                            height: status.height,
                            round: INIT_ROUND,
                            lock_round: None,
                            lock_proposal: None,
                            from_where: FromWhere::PrecommitQC(u64::MAX),
                            new_interval: status.new_interval,
                            new_config: status.new_config,
                        },
                    ),
                );
            },
            TriggerType::WalInfo => {
                let base = match t.wal_info {
                    Some(base) => base,
                    None => {
                        return Err(ConsensusError::Other("no wal info".to_string()));
                    },
                };
                match &base.polc {
                    Some(l) => {
                        let early = base.step == Step::Propose || base.step == Step::Prevote;
                        if l.hash.len() == 0 || l.round > base.round || (early && l.round
                            == base.round) {
                            return Err(ConsensusError::SelfCheckErr("lock".to_string()));
                        }
                    },
                    None => {},
                }
                self.height = base.height;
                self.round = base.round;
                self.step = base.step;
                self.block_hash = match &base.polc {
                    Some(l) => l.hash.clone(),
                    None => Vec::new(),
                };
                self.lock = base.polc;
                return Ok(no_event());
            },
            _ => {},
        }
        if t.height != self.height {
            return Ok(no_event());
        }
        match t.trigger_type {
            TriggerType::Proposal => self.handle_proposal(t),
            TriggerType::PrevoteQC => Ok(self.handle_prevote(t)),
            TriggerType::PrecommitQC => self.handle_precommit(t),
            TriggerType::BrakeTimeout => {
                if t.round != self.round || !(self.step == Step::Brake) {
                    return Ok(no_event());
                }
                Ok(
                    one_event(
                        SMREvent::Brake {
                            height: self.height,
                            round: self.round,
                            lock_round: self.lock_round(),
                        },
                    ),
                )
            },
            _ => {
                if self.step == Step::Commit || t.round <= self.round {
                    return Ok(no_event());
                }
                Ok(self.enter(t.round, FromWhere::ChokeQC(t.round - 1)))
            },
        }
    }

    fn handle_proposal(&mut self, t: SMRTrigger) -> (res: Result<Vec<SMREvent>, ConsensusError>)
        requires
            old(self).wf(),
        ensures
            final(self).wf(),
            match old(self)@.on_proposal(t@) {
                Move::To(m, events) => res is Ok && final(self)@ == m && event_views(res->Ok_0@)
                    == events,
                Move::Refused(why) => res is Err && why.told_by(res->Err_0) && final(self)@
                    == old(self)@,
            },
    {
        if !(self.step == Step::Propose) || t.round != self.round {
            return Ok(no_event());
        }
        if t.source == TriggerSource::Timer {
            let hash = self.fallback();
            self.block_hash = hash.clone();
            self.step = Step::Prevote;
            return Ok(
                one_event(
                    SMREvent::PrevoteVote {
                        height: self.height,
                        round: self.round,
                        block_hash: hash,
                        lock_round: self.lock_round(),
                    },
                ),
            );
        }
        if t.hash.len() == 0 {
            return Err(ConsensusError::ProposalErr("Empty proposal".to_string()));
        }
        match t.lock_round {
            Some(lock_round) => {
                if lock_round >= self.round {
                    return Err(ConsensusError::ProposalErr("Lock round".to_string()));
                }
            },
            None => {},
        }
        let mut unlock = false;
        match &self.lock {
            Some(l) => {
                match t.lock_round {
                    Some(lock_round) => {
                        let same = bytes_eq(&t.hash, &l.hash);
                        if lock_round > l.round && !same {
                            unlock = true;
                        } else if lock_round == l.round && !same {
                            return Err(ConsensusError::CorrectnessErr("Fork".to_string()));
                        }
                    },
                    None => {},
                }
            },
            None => {
                unlock = true;
            },
        }
        if unlock {
            self.lock = None;
            self.block_hash = t.hash;
        }
        self.step = Step::Prevote;
        Ok(
            one_event(
                SMREvent::PrevoteVote {
                    height: self.height,
                    round: self.round,
                    block_hash: self.block_hash.clone(),
                    lock_round: self.lock_round(),
                },
            ),
        )
    }

    fn handle_prevote(&mut self, t: SMRTrigger) -> (r: Vec<SMREvent>)
        requires
            old(self).wf(),
        ensures
            final(self).wf(),
            old(self)@.on_prevote_qc(t@) == Move::To(final(self)@, event_views(r@)),
    {
        if t.round != self.round {
            return no_event();
        }
        let from_timer = t.source == TriggerSource::Timer;
        if from_timer && !(self.step == Step::Prevote) {
            return no_event();
        }
        if !from_timer && !(self.step == Step::Propose || self.step == Step::Prevote) {
            let again = match &self.lock {
                Some(l) => self.step == Step::Precommit && t.hash.len() > 0 && l.round == self.round
                    && bytes_eq(&l.hash, &t.hash),
                None => false,
            };
            if again {
                return one_event(
                    SMREvent::PrecommitVote {
                        height: self.height,
                        round: self.round,
                        block_hash: t.hash,
                        lock_round: Some(self.round),
                    },
                );
            }
            return no_event();
        }
        if from_timer || t.hash.len() == 0 {
            self.step = Step::Precommit;
            return one_event(
                SMREvent::PrecommitVote {
                    height: self.height,
                    round: self.round,
                    block_hash: Vec::new(),
                    lock_round: self.lock_round(),
                },
            );
        }
        self.step = Step::Precommit;
        self.lock = Some(Lock { round: self.round, hash: t.hash.clone() });
        self.block_hash = t.hash.clone();
        one_event(
            SMREvent::PrecommitVote {
                height: self.height,
                round: self.round,
                block_hash: t.hash,
                lock_round: Some(self.round),
            },
        )
    }

    fn handle_precommit(&mut self, t: SMRTrigger) -> (res: Result<Vec<SMREvent>, ConsensusError>)
        requires
            old(self).wf(),
        ensures
            final(self).wf(),
            match old(self)@.on_precommit_qc(t@) {
                Move::To(m, events) => res is Ok && final(self)@ == m && event_views(res->Ok_0@)
                    == events,
                Move::Refused(why) => res is Err && why.told_by(res->Err_0) && final(self)@
                    == old(self)@,
            },
    {
        if t.source == TriggerSource::Timer {
            if t.round != self.round || !(self.step == Step::Precommit) {
                return Ok(no_event());
            }
            self.step = Step::Brake;
            return Ok(
                one_event(
                    SMREvent::Brake {
                        height: self.height,
                        round: self.round,
                        lock_round: self.lock_round(),
                    },
                ),
            );
        }
        if self.step == Step::Commit {
            return Ok(no_event());
        }
        if t.hash.len() > 0 {
            self.step = Step::Commit;
            self.block_hash = t.hash.clone();
            return Ok(one_event(SMREvent::Commit(t.hash)));
        }
        if t.round < self.round {
            return Ok(no_event());
        }
        if t.round == u64::MAX {
            return Err(ConsensusError::Other("no round follows".to_string()));
        }
        Ok(self.enter(t.round + 1, FromWhere::PrecommitQC(t.round)))
    }
}

} // verus!
