use overlord::error::ConsensusError;
use overlord::smr::smr_types::{
    FromWhere, Lock, SMREvent, SMRStatus, SMRTrigger, Step, TriggerSource, TriggerType,
};
use overlord::smr::state_machine::StateMachine;
use overlord::smr::timer::Timer;
use overlord::wal::wal_type::SMRBase;
use overlord::DurationConfig;

fn trigger(
    trigger_type: TriggerType,
    source: TriggerSource,
    hash: Vec<u8>,
    lock_round: Option<u64>,
    round: u64,
    height: u64,
) -> SMRTrigger {
    SMRTrigger { trigger_type, source, hash, lock_round, round, height, wal_info: None }
}

fn at_height(height: u64) -> StateMachine {
    let mut smr = StateMachine::new();
    let events = smr
        .trigger(trigger(
            TriggerType::NewHeight(SMRStatus::new(height)),
            TriggerSource::State,
            vec![],
            None,
            0,
            height,
        ))
        .unwrap();
    assert_eq!(
        events,
        vec![SMREvent::NewRoundInfo {
            height,
            round: 0,
            lock_round: None,
            lock_proposal: None,
            from_where: FromWhere::PrecommitQC(u64::MAX),
            new_interval: None,
            new_config: None,
        }]
    );
    smr
}

#[test]
fn new_machine_waits_in_commit_step() {
    let smr = StateMachine::new();
    assert_eq!(smr.height, 0);
    assert_eq!(smr.round, 0);
    assert_eq!(smr.step, Step::Commit);
    assert_eq!(smr.lock, None);
    assert!(smr.block_hash.is_empty());
}

#[test]
fn new_height_starts_round_zero() {
    let smr = at_height(1);
    assert_eq!((smr.height, smr.round, smr.step), (1, 0, Step::Propose));
}

#[test]
fn new_height_carries_interval_and_config() {
    let mut smr = StateMachine::new();
    let config = DurationConfig::new(1, 2, 3, 4);
    let status = SMRStatus { height: 5, new_interval: Some(3000), new_config: Some(config) };
    let events = smr
        .trigger(trigger(TriggerType::NewHeight(status), TriggerSource::State, vec![], None, 0, 5))
        .unwrap();
    assert_eq!(
        events,
        vec![SMREvent::NewRoundInfo {
            height: 5,
            round: 0,
            lock_round: None,
            lock_proposal: None,
            from_where: FromWhere::PrecommitQC(u64::MAX),
            new_interval: Some(3000),
            new_config: Some(config),
        }]
    );
}

#[test]
fn delayed_or_foreign_new_height_is_refused() {
    let mut smr = at_height(3);
    let res = smr.trigger(trigger(
        TriggerType::NewHeight(SMRStatus::new(3)),
        TriggerSource::State,
        vec![],
        None,
        0,
        3,
    ));
    assert!(matches!(res, Err(ConsensusError::Other(_))));
    let res = smr.trigger(trigger(
        TriggerType::NewHeight(SMRStatus::new(4)),
        TriggerSource::Timer,
        vec![],
        None,
        0,
        4,
    ));
    assert!(matches!(res, Err(ConsensusError::Other(_))));
    assert_eq!((smr.height, smr.round, smr.step), (3, 0, Step::Propose));
}

#[test]
fn happy_path_through_the_steps() {
    let mut smr = at_height(1);
    let h = vec![0xaa; 32];
    let events = smr
        .trigger(trigger(TriggerType::Proposal, TriggerSource::State, h.clone(), None, 0, 1))
        .unwrap();
    assert_eq!(
        events,
        vec![SMREvent::PrevoteVote { height: 1, round: 0, block_hash: h.clone(), lock_round: None }]
    );
    assert_eq!(smr.step, Step::Prevote);
    let events = smr
        .trigger(trigger(TriggerType::PrevoteQC, TriggerSource::State, h.clone(), None, 0, 1))
        .unwrap();
    assert_eq!(
        events,
        vec![SMREvent::PrecommitVote {
            height: 1,
            round: 0,
            block_hash: h.clone(),
            lock_round: Some(0)
        }]
    );
    assert_eq!(smr.step, Step::Precommit);
    assert_eq!(smr.lock, Some(Lock { round: 0, hash: h.clone() }));
    let events = smr
        .trigger(trigger(TriggerType::PrecommitQC, TriggerSource::State, h.clone(), None, 0, 1))
        .unwrap();
    assert_eq!(events, vec![SMREvent::Commit(h.clone())]);
    assert_eq!(smr.step, Step::Commit);
    // a second certificate commits nothing more
    let events = smr
        .trigger(trigger(TriggerType::PrecommitQC, TriggerSource::State, h, None, 0, 1))
        .unwrap();
    assert!(events.is_empty());
    // the next height
    let events = smr
        .trigger(trigger(
            TriggerType::NewHeight(SMRStatus::new(2)),
            TriggerSource::State,
            vec![],
            None,
            0,
            2,
        ))
        .unwrap();
    assert_eq!(events.len(), 1);
    assert_eq!((smr.height, smr.round, smr.step), (2, 0, Step::Propose));
    assert_eq!(smr.lock, None);
}

#[test]
fn timeouts_vote_for_nothing_and_brake() {
    let mut smr = at_height(1);
    let events = smr
        .trigger(trigger(TriggerType::Proposal, TriggerSource::Timer, vec![], None, 0, 1))
        .unwrap();
    assert_eq!(
        events,
        vec![SMREvent::PrevoteVote { height: 1, round: 0, block_hash: vec![], lock_round: None }]
    );
    let events = smr
        .trigger(trigger(TriggerType::PrevoteQC, TriggerSource::Timer, vec![], None, 0, 1))
        .unwrap();
    assert_eq!(
        events,
        vec![SMREvent::PrecommitVote { height: 1, round: 0, block_hash: vec![], lock_round: None }]
    );
    let events = smr
        .trigger(trigger(TriggerType::PrecommitQC, TriggerSource::Timer, vec![], None, 0, 1))
        .unwrap();
    assert_eq!(events, vec![SMREvent::Brake { height: 1, round: 0, lock_round: None }]);
    assert_eq!(smr.step, Step::Brake);
    let events = smr
        .trigger(trigger(TriggerType::BrakeTimeout, TriggerSource::Timer, vec![], None, 0, 1))
        .unwrap();
    assert_eq!(events, vec![SMREvent::Brake { height: 1, round: 0, lock_round: None }]);
    let events = smr
        .trigger(trigger(TriggerType::ContinueRound, TriggerSource::State, vec![], None, 1, 1))
        .unwrap();
    assert_eq!(
        events,
        vec![SMREvent::NewRoundInfo {
            height: 1,
            round: 1,
            lock_round: None,
            lock_proposal: None,
            from_where: FromWhere::ChokeQC(0),
            new_interval: None,
            new_config: None,
        }]
    );
    assert_eq!((smr.round, smr.step), (1, Step::Propose));
}

#[test]
fn null_certificates_lead_to_the_next_round() {
    let mut smr = at_height(1);
    smr.trigger(trigger(TriggerType::Proposal, TriggerSource::Timer, vec![], None, 0, 1)).unwrap();
    let events = smr
        .trigger(trigger(TriggerType::PrevoteQC, TriggerSource::State, vec![], None, 0, 1))
        .unwrap();
    assert_eq!(
        events,
        vec![SMREvent::PrecommitVote { height: 1, round: 0, block_hash: vec![], lock_round: None }]
    );
    let events = smr
        .trigger(trigger(TriggerType::PrecommitQC, TriggerSource::State, vec![], None, 0, 1))
        .unwrap();
    assert_eq!(
        events,
        vec![SMREvent::NewRoundInfo {
            height: 1,
            round: 1,
            lock_round: None,
            lock_proposal: None,
            from_where: FromWhere::PrecommitQC(0),
            new_interval: None,
            new_config: None,
        }]
    );
    assert_eq!((smr.round, smr.step), (1, Step::Propose));
}

#[test]
fn stale_triggers_are_ignored() {
    let mut smr = at_height(2);
    let h = vec![1];
    for t in [
        trigger(TriggerType::Proposal, TriggerSource::State, h.clone(), None, 0, 1),
        trigger(TriggerType::Proposal, TriggerSource::State, h.clone(), None, 1, 2),
        trigger(TriggerType::PrevoteQC, TriggerSource::State, h.clone(), None, 0, 3),
        trigger(TriggerType::PrevoteQC, TriggerSource::State, h.clone(), None, 1, 2),
        trigger(TriggerType::PrevoteQC, TriggerSource::Timer, vec![], None, 0, 2),
        trigger(TriggerType::PrecommitQC, TriggerSource::Timer, vec![], None, 0, 2),
        trigger(TriggerType::BrakeTimeout, TriggerSource::Timer, vec![], None, 0, 2),
        trigger(TriggerType::ContinueRound, TriggerSource::State, vec![], None, 0, 2),
        trigger(TriggerType::ContinueRound, TriggerSource::State, vec![], None, 4, 1),
    ] {
        assert!(smr.trigger(t).unwrap().is_empty());
        assert_eq!((smr.height, smr.round, smr.step), (2, 0, Step::Propose));
    }
}

#[test]
fn empty_proposal_is_refused() {
    let mut smr = at_height(1);
    let res = smr.trigger(trigger(TriggerType::Proposal, TriggerSource::State, vec![], None, 0, 1));
    assert!(matches!(res, Err(ConsensusError::ProposalErr(_))));
    assert_eq!(smr.step, Step::Propose);
}

#[test]
fn lock_is_carried_across_rounds() {
    let mut smr = at_height(1);
    let h = vec![0xaa];
    smr.trigger(trigger(TriggerType::Proposal, TriggerSource::State, h.clone(), None, 0, 1)).unwrap();
    smr.trigger(trigger(TriggerType::PrevoteQC, TriggerSource::State, h.clone(), None, 0, 1)).unwrap();
    smr.trigger(trigger(TriggerType::PrecommitQC, TriggerSource::Timer, vec![], None, 0, 1)).unwrap();
    let events = smr
        .trigger(trigger(TriggerType::ContinueRound, TriggerSource::State, vec![], None, 1, 1))
        .unwrap();
    assert_eq!(
        events,
        vec![SMREvent::NewRoundInfo {
            height: 1,
            round: 1,
            lock_round: Some(0),
            lock_proposal: Some(h.clone()),
            from_where: FromWhere::ChokeQC(0),
            new_interval: None,
            new_config: None,
        }]
    );
    // another block is proposed without a later certificate: the replica prevotes its lock
    let other = vec![0xbb];
    let events = smr
        .trigger(trigger(TriggerType::Proposal, TriggerSource::State, other.clone(), None, 1, 1))
        .unwrap();
    assert_eq!(
        events,
        vec![SMREvent::PrevoteVote { height: 1, round: 1, block_hash: h.clone(), lock_round: Some(0) }]
    );
    assert_eq!(smr.lock, Some(Lock { round: 0, hash: h.clone() }));
}

#[test]
fn locked_block_is_prevoted_on_timeout() {
    let mut smr = at_height(1);
    let h = vec![0xaa];
    smr.trigger(trigger(TriggerType::Proposal, TriggerSource::State, h.clone(), None, 0, 1)).unwrap();
    smr.trigger(trigger(TriggerType::PrevoteQC, TriggerSource::State, h.clone(), None, 0, 1)).unwrap();
    smr.trigger(trigger(TriggerType::PrecommitQC, TriggerSource::State, vec![], None, 0, 1)).unwrap();
    assert_eq!((smr.round, smr.step), (1, Step::Propose));
    let events = smr
        .trigger(trigger(TriggerType::Proposal, TriggerSource::Timer, vec![], None, 1, 1))
        .unwrap();
    assert_eq!(
        events,
        vec![SMREvent::PrevoteVote { height: 1, round: 1, block_hash: h, lock_round: Some(0) }]
    );
}

#[test]
fn later_lock_round_unlocks() {
    let mut smr = at_height(1);
    let h = vec![0xaa];
    smr.trigger(trigger(TriggerType::Proposal, TriggerSource::State, h.clone(), None, 0, 1)).unwrap();
    smr.trigger(trigger(TriggerType::PrevoteQC, TriggerSource::State, h.clone(), None, 0, 1)).unwrap();
    smr.trigger(trigger(TriggerType::ContinueRound, TriggerSource::State, vec![], None, 3, 1)).unwrap();
    let other = vec![0xbb];
    let events = smr
        .trigger(trigger(TriggerType::Proposal, TriggerSource::State, other.clone(), Some(2), 3, 1))
        .unwrap();
    assert_eq!(
        events,
        vec![SMREvent::PrevoteVote { height: 1, round: 3, block_hash: other, lock_round: None }]
    );
    assert_eq!(smr.lock, None);
}

#[test]
fn fork_and_bad_lock_round_are_refused() {
    let mut smr = at_height(1);
    let h = vec![0xaa];
    smr.trigger(trigger(TriggerType::Proposal, TriggerSource::State, h.clone(), None, 0, 1)).unwrap();
    smr.trigger(trigger(TriggerType::PrevoteQC, TriggerSource::State, h.clone(), None, 0, 1)).unwrap();
    smr.trigger(trigger(TriggerType::ContinueRound, TriggerSource::State, vec![], None, 1, 1)).unwrap();
    let res = smr.trigger(trigger(
        TriggerType::Proposal,
        TriggerSource::State,
        vec![0xbb],
        Some(0),
        1,
        1,
    ));
    assert!(matches!(res, Err(ConsensusError::CorrectnessErr(_))));
    let res = smr.trigger(trigger(
        TriggerType::Proposal,
        TriggerSource::State,
        vec![0xbb],
        Some(1),
        1,
        1,
    ));
    assert!(matches!(res, Err(ConsensusError::ProposalErr(_))));
    assert_eq!(smr.step, Step::Propose);
    assert_eq!(smr.lock, Some(Lock { round: 0, hash: h }));
}

#[test]
fn certificate_of_the_last_round_is_refused() {
    let mut smr = at_height(1);
    let res = smr.trigger(trigger(
        TriggerType::PrecommitQC,
        TriggerSource::State,
        vec![],
        None,
        u64::MAX,
        1,
    ));
    assert!(matches!(res, Err(ConsensusError::Other(_))));
}

#[test]
fn wal_info_rehydrates() {
    let mut smr = StateMachine::new();
    let base = SMRBase {
        height: 1,
        round: 0,
        step: Step::Precommit,
        polc: Some(Lock { round: 0, hash: vec![0xaa] }),
    };
    let mut t = trigger(TriggerType::WalInfo, TriggerSource::State, vec![], None, 0, 1);
    t.wal_info = Some(base);
    let events = smr.trigger(t).unwrap();
    assert!(events.is_empty());
    assert_eq!((smr.height, smr.round, smr.step), (1, 0, Step::Precommit));
    assert_eq!(smr.lock, Some(Lock { round: 0, hash: vec![0xaa] }));
    assert_eq!(smr.block_hash, vec![0xaa]);
    // the precommit certificate then commits
    let events = smr
        .trigger(trigger(TriggerType::PrecommitQC, TriggerSource::State, vec![0xaa], None, 0, 1))
        .unwrap();
    assert_eq!(events, vec![SMREvent::Commit(vec![0xaa])]);
}

#[test]
fn wal_info_without_base_or_with_bad_lock_is_refused() {
    let mut smr = StateMachine::new();
    let res = smr.trigger(trigger(TriggerType::WalInfo, TriggerSource::State, vec![], None, 0, 1));
    assert!(matches!(res, Err(ConsensusError::Other(_))));
    let mut t = trigger(TriggerType::WalInfo, TriggerSource::State, vec![], None, 0, 1);
    t.wal_info = Some(SMRBase {
        height: 1,
        round: 0,
        step: Step::Propose,
        polc: Some(Lock { round: 0, hash: vec![0xaa] }),
    });
    assert!(matches!(smr.trigger(t), Err(ConsensusError::SelfCheckErr(_))));
    let mut t = trigger(TriggerType::WalInfo, TriggerSource::State, vec![], None, 0, 1);
    t.wal_info = Some(SMRBase {
        height: 1,
        round: 2,
        step: Step::Precommit,
        polc: Some(Lock { round: 1, hash: vec![] }),
    });
    assert!(matches!(smr.trigger(t), Err(ConsensusError::SelfCheckErr(_))));
    assert_eq!((smr.height, smr.step), (0, Step::Commit));
}

#[test]
fn stop_stops() {
    let mut smr = at_height(1);
    let events = smr
        .trigger(trigger(TriggerType::Stop, TriggerSource::State, vec![], None, 0, 1))
        .unwrap();
    assert_eq!(events, vec![SMREvent::Stop]);
    assert!(smr.stopped);
    let events = smr
        .trigger(trigger(TriggerType::Proposal, TriggerSource::State, vec![1], None, 0, 1))
        .unwrap();
    assert!(events.is_empty());
    assert_eq!(smr.step, Step::Propose);
}

#[test]
fn one_commit_per_height() {
    let mut smr = at_height(1);
    let mut commits = 0;
    let triggers = vec![
        trigger(TriggerType::Proposal, TriggerSource::State, vec![1], None, 0, 1),
        trigger(TriggerType::PrecommitQC, TriggerSource::State, vec![1], None, 0, 1),
        trigger(TriggerType::PrecommitQC, TriggerSource::State, vec![2], None, 0, 1),
        trigger(TriggerType::PrecommitQC, TriggerSource::State, vec![1], None, 1, 1),
        trigger(TriggerType::ContinueRound, TriggerSource::State, vec![], None, 5, 1),
        trigger(TriggerType::PrecommitQC, TriggerSource::State, vec![], None, 0, 1),
        trigger(TriggerType::PrecommitQC, TriggerSource::State, vec![3], None, 5, 1),
    ];
    for t in triggers {
        for e in smr.trigger(t).unwrap() {
            if matches!(e, SMREvent::Commit(_)) {
                commits += 1;
            }
        }
    }
    assert_eq!(commits, 1);
    assert_eq!((smr.round, smr.step), (0, Step::Commit));
}

#[test]
fn timer_sets_the_timeout_of_the_step() {
    let config = DurationConfig::new(1500, 1000, 700, 300);
    let mut timer = Timer::new(3000, config);
    let event = SMREvent::NewRoundInfo {
        height: 2,
        round: 1,
        lock_round: None,
        lock_proposal: None,
        from_where: FromWhere::PrecommitQC(0),
        new_interval: None,
        new_config: None,
    };
    let timeout = timer.on_event(&event).unwrap();
    assert_eq!(timeout.delay, 4500);
    assert_eq!(
        timeout.trigger,
        trigger(TriggerType::Proposal, TriggerSource::Timer, vec![], None, 1, 2)
    );
    let event = SMREvent::PrevoteVote { height: 2, round: 1, block_hash: vec![1], lock_round: None };
    let timeout = timer.on_event(&event).unwrap();
    assert_eq!(timeout.delay, 3000);
    assert_eq!(
        timeout.trigger,
        trigger(TriggerType::PrevoteQC, TriggerSource::Timer, vec![], None, 1, 2)
    );
    let event = SMREvent::PrecommitVote { height: 2, round: 1, block_hash: vec![1], lock_round: None };
    let timeout = timer.on_event(&event).unwrap();
    assert_eq!(timeout.delay, 2100);
    assert_eq!(
        timeout.trigger,
        trigger(TriggerType::PrecommitQC, TriggerSource::Timer, vec![], None, 1, 2)
    );
    let event = SMREvent::Brake { height: 2, round: 1, lock_round: None };
    let timeout = timer.on_event(&event).unwrap();
    assert_eq!(timeout.delay, 900);
    assert_eq!(
        timeout.trigger,
        trigger(TriggerType::BrakeTimeout, TriggerSource::Timer, vec![], None, 1, 2)
    );
    assert_eq!(timer.on_event(&SMREvent::Commit(vec![1])), None);
    assert_eq!(timer.on_event(&SMREvent::Stop), None);
}

#[test]
fn timer_takes_over_new_interval_and_config() {
    let mut timer = Timer::new(3000, DurationConfig::new(1500, 1000, 700, 300));
    let config = DurationConfig::new(2000, 1, 1, 1);
    let event = SMREvent::NewRoundInfo {
        height: 2,
        round: 0,
        lock_round: None,
        lock_proposal: None,
        from_where: FromWhere::PrecommitQC(u64::MAX),
        new_interval: Some(1000),
        new_config: Some(config),
    };
    let timeout = timer.on_event(&event).unwrap();
    assert_eq!(timeout.delay, 2000);
    assert_eq!(timer, Timer::new(1000, config));
}

#[test]
fn locked_certificate_has_the_vote_cast_again() {
    let mut smr = at_height(1);
    let h = vec![0xaa];
    smr.trigger(trigger(TriggerType::Proposal, TriggerSource::State, h.clone(), None, 0, 1)).unwrap();
    smr.trigger(trigger(TriggerType::PrevoteQC, TriggerSource::State, h.clone(), None, 0, 1)).unwrap();
    assert_eq!(smr.step, Step::Precommit);
    let events = smr
        .trigger(trigger(TriggerType::PrevoteQC, TriggerSource::State, h.clone(), None, 0, 1))
        .unwrap();
    assert_eq!(
        events,
        vec![SMREvent::PrecommitVote { height: 1, round: 0, block_hash: h, lock_round: Some(0) }]
    );
    assert_eq!(smr.step, Step::Precommit);
    // a certificate for another block, or for no block, changes nothing then
    let events = smr
        .trigger(trigger(TriggerType::PrevoteQC, TriggerSource::State, vec![0xbb], None, 0, 1))
        .unwrap();
    assert!(events.is_empty());
    let events = smr
        .trigger(trigger(TriggerType::PrevoteQC, TriggerSource::State, vec![], None, 0, 1))
        .unwrap();
    assert!(events.is_empty());
}

#[test]
fn later_lock_round_for_the_locked_block_keeps_the_lock() {
    let mut smr = at_height(1);
    let h = vec![0xaa];
    smr.trigger(trigger(TriggerType::Proposal, TriggerSource::State, h.clone(), None, 0, 1)).unwrap();
    smr.trigger(trigger(TriggerType::PrevoteQC, TriggerSource::State, h.clone(), None, 0, 1)).unwrap();
    smr.trigger(trigger(TriggerType::ContinueRound, TriggerSource::State, vec![], None, 3, 1)).unwrap();
    let events = smr
        .trigger(trigger(TriggerType::Proposal, TriggerSource::State, h.clone(), Some(2), 3, 1))
        .unwrap();
    assert_eq!(
        events,
        vec![SMREvent::PrevoteVote { height: 1, round: 3, block_hash: h.clone(), lock_round: Some(0) }]
    );
    assert_eq!(smr.lock, Some(Lock { round: 0, hash: h }));
}
