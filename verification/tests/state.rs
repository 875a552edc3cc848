use overlord::error::ConsensusError;
use overlord::smr::smr_types::{FromWhere, Lock, SMREvent, SMRTrigger, Step, TriggerSource, TriggerType};
use overlord::smr::state_machine::StateMachine;
use overlord::state::process::{mock_init_qc, Action, Outcome, Route, State};
use overlord::state::verify::{Check, Signed};
use overlord::types::{
    AggregatedChoke, AggregatedSignature, AggregatedVote, Choke, Commit, HashChoke, Node, OverlordMsg,
    PoLC,
    Proof, Proposal, SignedChoke, SignedProposal, SignedVote, Status, UpdateFrom, VerifyResp,
    ViewChangeReason, Vote, VoteType,
};
use overlord::wal::wal_type::{SMRBase, WalInfo, WalLock};

const INTERVAL: u64 = 3000;

fn addr(i: u8) -> Vec<u8> {
    vec![0xa0 + i; 4]
}

fn authority() -> Vec<Node> {
    // out of order on purpose: the state sorts the list
    vec![Node::new(addr(2)), Node::new(addr(0)), Node::new(addr(3)), Node::new(addr(1))]
}

fn status(height: u64) -> Status {
    Status { height, interval: None, timer_config: None, authority_list: authority() }
}

fn block_of(height: u64, proposer: &[u8]) -> (Vec<u8>, Vec<u8>) {
    let mut block = vec![0xb0];
    block.extend_from_slice(&height.to_be_bytes());
    block.extend_from_slice(proposer);
    let mut hash = vec![0x4a];
    hash.extend_from_slice(&block);
    (block, hash)
}

/// A signature that anyone can check: who signed, and what.
fn sign(signer: &[u8], payload: &[u8]) -> Vec<u8> {
    let mut sig = signer.to_vec();
    sig.extend_from_slice(payload);
    sig
}

/// An aggregate that depends on the order of the signatures.
fn aggregate(signatures: &[Vec<u8>], voters: &[Vec<u8>]) -> Vec<u8> {
    assert_eq!(signatures.len(), voters.len());
    let mut sig = vec![signatures.len() as u8];
    for (s, v) in signatures.iter().zip(voters.iter()) {
        assert_eq!(&s[..v.len()], &v[..]);
        sig.extend_from_slice(v);
    }
    sig
}

struct Replica {
    address: Vec<u8>,
    state: State,
    smr: StateMachine,
    wal: Vec<WalInfo>,
    commits: Vec<(u64, Commit)>,
    reasons: Vec<(u64, u64, ViewChangeReason)>,
    errors: Vec<ConsensusError>,
    outbox: Vec<(Option<Vec<u8>>, OverlordMsg)>,
    log: Vec<String>,
    /// The height from which on the application hands out no block.
    halt_at: u64,
    /// Whether the write-ahead log refuses every record.
    wal_fails: bool,
}

impl Replica {
    fn new(i: u8) -> Self {
        Replica {
            address: addr(i),
            state: State::new(addr(i), 0, INTERVAL, authority()),
            smr: StateMachine::new(),
            wal: vec![],
            commits: vec![],
            reasons: vec![],
            errors: vec![],
            outbox: vec![],
            log: vec![],
            halt_at: 2,
            wal_fails: false,
        }
    }

    /// Performs the actions in their order. An action that fails ends the work: the actions
    /// behind it are dropped.
    fn perform(&mut self, out: Outcome) -> bool {
        for action in out.actions {
            if !self.act(action) {
                return false;
            }
        }
        if let Some(e) = out.error {
            self.errors.push(e);
            return false;
        }
        true
    }

    fn trigger(&mut self, t: SMRTrigger) {
        match self.smr.trigger(t) {
            Ok(events) => {
                for event in events {
                    let out = self.state.handle_event(Some(event));
                    self.perform(out);
                }
            }
            Err(e) => self.errors.push(e),
        }
    }

    fn timeout(&mut self, trigger_type: TriggerType) {
        let t = SMRTrigger {
            trigger_type,
            source: TriggerSource::Timer,
            hash: vec![],
            lock_round: None,
            round: self.smr.round,
            height: self.smr.height,
            wal_info: None,
        };
        self.trigger(t);
    }

    fn receive(&mut self, msg: OverlordMsg) {
        match self.state.route_msg(&msg) {
            Route::Drop => {}
            _ => {
                let out = self.state.handle_msg(msg);
                self.perform(out);
            }
        }
    }

    fn act(&mut self, action: Action) -> bool {
        match action {
            Action::SaveWal(wal) => {
                if self.wal_fails {
                    self.log.push("wal refused".to_string());
                    return false;
                }
                self.log.push(format!("wal {}", wal.step.name()));
                self.wal.push(wal);
                true
            }
            Action::Trigger(t) => {
                self.trigger(t);
                true
            }
            Action::Broadcast(msg) => {
                self.log.push("broadcast".to_string());
                self.outbox.push((None, msg));
                true
            }
            Action::Transmit(to, msg) => {
                self.log.push("transmit".to_string());
                self.outbox.push((Some(to), msg));
                true
            }
            Action::CheckBlock { height, round, hash, block: _ } => {
                let out = self.state.handle_resp(Some(VerifyResp {
                    height,
                    round,
                    block_hash: hash,
                    is_pass: true,
                }));
                self.perform(out);
                true
            }
            Action::Verify(msg) => {
                let out = self.state.handle_msg(msg);
                self.perform(out);
                true
            }
            Action::ReportViewChange { height, round, reason } => {
                self.reasons.push((height, round, reason));
                true
            }
            Action::MarkHeightStart => true,
            Action::GetBlock { height } => {
                if height >= self.halt_at {
                    self.log.push("no block".to_string());
                    return false;
                }
                let (block, hash) = block_of(height, &self.address);
                let out = self.state.block_received(block, hash);
                self.perform(out)
            }
            Action::SignProposal(proposal) => {
                let sig = sign(&self.address, &proposal.encode());
                let out = self.state.proposal_signed(proposal, sig);
                self.perform(out)
            }
            Action::SignVote { vote, lock_round } => {
                let sig = sign(&self.address, &vote.encode());
                let out = self.state.vote_signed(vote, sig, lock_round);
                self.perform(out)
            }
            Action::CastVote(signed_vote) => {
                self.log.push("cast".to_string());
                let out = self.state.vote_recorded(signed_vote);
                self.perform(out)
            }
            Action::EnterRound { lock_round, lock_proposal } => {
                let out = self.state.round_recorded(lock_round, lock_proposal);
                self.perform(out)
            }
            Action::EnterHeight(status) => {
                let out = self.state.height_recorded(status);
                self.perform(out)
            }
            Action::SignChoke { choke, lock_round } => {
                let hash = choke.to_hash();
                let sig = sign(&self.address, &[hash.height as u8, hash.round as u8]);
                let out = self.state.choke_signed(sig, lock_round);
                self.perform(out)
            }
            Action::AggregateVotes(draft) => {
                let sig = aggregate(&draft.signatures, &draft.voters);
                let out = self.state.votes_aggregated(draft.block_hash, draft.vote_type, sig);
                self.perform(out)
            }
            Action::AggregateChokes { round, signatures, voters } => {
                let sig = aggregate(&signatures, &voters);
                let out = self.state.chokes_aggregated(round, voters, sig);
                self.perform(out)
            }
            Action::Commit { height, commit } => {
                self.log.push("commit".to_string());
                self.commits.push((height, commit));
                let out = self.state.commit_done(status(height + 1), INTERVAL);
                self.perform(out)
            }
            Action::Sleep(_) => true,
        }
    }
}

struct Net {
    nodes: Vec<Replica>,
    /// Which messages the network loses.
    lose: fn(&[u8], &OverlordMsg) -> bool,
}

fn lose_nothing(_from: &[u8], _msg: &OverlordMsg) -> bool {
    false
}

impl Net {
    fn new() -> Self {
        Net { nodes: (0..4).map(Replica::new).collect(), lose: lose_nothing }
    }

    /// All replicas learn of the height from the application.
    fn start(&mut self, height: u64) {
        for node in self.nodes.iter_mut() {
            node.receive(OverlordMsg::RichStatus(status(height)));
        }
        self.run();
    }

    /// Delivers messages until none is under way.
    fn run(&mut self) {
        loop {
            let mut sent = vec![];
            for node in self.nodes.iter_mut() {
                for (to, msg) in node.outbox.drain(..) {
                    sent.push((node.address.clone(), to, msg));
                }
            }
            if sent.is_empty() {
                break;
            }
            for (from, to, msg) in sent {
                if (self.lose)(&from, &msg) {
                    continue;
                }
                for node in self.nodes.iter_mut() {
                    let for_me = match &to {
                        Some(to) => *to == node.address,
                        None => node.address != from,
                    };
                    if for_me {
                        node.receive(msg.clone());
                    }
                }
            }
        }
    }
}

fn fresh(i: u8, height: u64) -> State {
    let mut state = State::new(addr(i), 0, INTERVAL, authority());
    let out = state.goto_new_height(status(height));
    assert!(out.error.is_none());
    assert!(matches!(out.actions[0], Action::SaveWal(_)));
    assert_eq!(out.actions[1], Action::EnterHeight(status(height)));
    let out = state.height_recorded(status(height));
    assert!(out.error.is_none());
    state
}

fn signed_proposal(height: u64, round: u64, proposer: u8, hash: u8, lock: Option<PoLC>) -> SignedProposal {
    SignedProposal {
        signature: vec![proposer],
        proposal: Proposal {
            height,
            round,
            content: vec![hash, hash],
            block_hash: vec![hash],
            lock,
            proposer: addr(proposer),
        },
    }
}

fn signed_vote(height: u64, round: u64, vote_type: VoteType, hash: Vec<u8>, voter: u8) -> SignedVote {
    SignedVote {
        signature: sign(&addr(voter), &[1]),
        vote: Vote { height, round, vote_type, block_hash: hash },
        voter: addr(voter),
    }
}

fn qc(height: u64, round: u64, vote_type: VoteType, hash: Vec<u8>) -> AggregatedVote {
    AggregatedVote {
        signature: AggregatedSignature { signature: vec![9], address_bitmap: vec![0xe0] },
        vote_type,
        height,
        round,
        block_hash: hash,
        leader: addr(1),
    }
}

fn state_trigger(trigger_type: TriggerType, hash: Vec<u8>, lock_round: Option<u64>, round: u64, height: u64) -> Action {
    Action::Trigger(SMRTrigger {
        trigger_type,
        source: TriggerSource::State,
        hash,
        lock_round,
        round,
        height,
        wal_info: None,
    })
}

#[test]
fn new_state_sorts_the_authority_list() {
    let state = State::new(addr(2), 7, INTERVAL, authority());
    assert_eq!(state.height, 7);
    assert_eq!(state.round, 0);
    assert_eq!(state.block_interval, INTERVAL);
    assert!(state.consensus_power);
    assert!(!state.is_leader);
    assert!(!state.stopped);
    assert_eq!(
        state.authority.current.iter().map(|n| n.address.clone()).collect::<Vec<_>>(),
        vec![addr(0), addr(1), addr(2), addr(3)]
    );
    assert_eq!(state.authority.get_vote_weight_sum(), 4);
    assert_eq!(state.update_from_where, UpdateFrom::PrecommitQC(mock_init_qc()));
    let outsider = State::new(vec![1, 2, 3], 0, INTERVAL, authority());
    assert!(!outsider.consensus_power);
}

#[test]
fn init_qc_is_empty() {
    let qc = mock_init_qc();
    assert_eq!(qc.vote_type, VoteType::Precommit);
    assert_eq!((qc.height, qc.round), (0, 0));
    assert!(qc.block_hash.is_empty() && qc.leader.is_empty());
    assert!(qc.signature.signature.is_empty() && qc.signature.address_bitmap.is_empty());
}

#[test]
fn messages_are_filtered_by_height_and_round() {
    let mut state = fresh(0, 10);
    state.round = 3;
    // outdated
    assert!(state.filter_message(9, 100));
    assert!(state.filter_message(10, 2));
    assert!(state.filter_message(0, 0));
    // current
    assert!(!state.filter_message(10, 3));
    // ahead, within the gaps
    assert!(!state.filter_message(10, 13));
    assert!(!state.filter_message(15, 10));
    assert!(!state.filter_message(11, 0));
    // too far ahead
    assert!(state.filter_message(16, 0));
    assert!(state.filter_message(u64::MAX, 0));
    assert!(state.filter_message(11, 11));
    assert!(state.filter_message(15, u64::MAX));
    // at the replica's own height no round is too far ahead
    assert!(!state.filter_message(10, 14));
    assert!(!state.filter_message(10, u64::MAX));
    state.height = u64::MAX;
    state.round = u64::MAX;
    assert!(!state.filter_message(u64::MAX, u64::MAX));
    assert!(state.filter_message(u64::MAX, 0));
}

#[test]
fn addresses_and_proposers_are_verified() {
    let mut state = fresh(0, 1);
    assert!(state.verify_address(&addr(3)).is_ok());
    assert!(matches!(state.verify_address(&vec![1]), Err(ConsensusError::InvalidAddress)));
    assert!(state.verify_proposer(1, 0, &addr(1)).is_ok());
    assert!(state.verify_proposer(1, 1, &addr(2)).is_ok());
    assert!(matches!(state.verify_proposer(1, 0, &addr(2)), Err(ConsensusError::ProposalErr(_))));
    assert!(matches!(state.verify_proposer(1, 0, &vec![7]), Err(ConsensusError::ProposalErr(_))));
    assert_eq!(state.next_proposer(1, 3).unwrap(), true);
    assert_eq!(state.next_proposer(1, 0).unwrap(), false);
    assert_eq!(state.is_proposer().unwrap(), false);
    assert_eq!(state.leader_address, addr(1));
    state.round = 3;
    assert_eq!(state.is_proposer().unwrap(), true);
    assert!(state.is_leader);
    assert_eq!(state.leader_address, addr(0));
    // a voter of the list before the current one is still known
    state.authority.update(vec![Node::new(vec![1]), Node::new(vec![2])]);
    assert!(state.verify_address(&addr(3)).is_ok());
    assert!(state.verify_address(&vec![2]).is_ok());
    assert!(matches!(state.verify_address(&vec![3]), Err(ConsensusError::InvalidAddress)));
}

#[test]
fn messages_are_routed_by_height() {
    let state = fresh(0, 5);
    let vote = |h| OverlordMsg::SignedVote(signed_vote(h, 0, VoteType::Prevote, vec![1], 1));
    assert_eq!(state.route_msg(&vote(5)), Route::Verify);
    assert_eq!(state.route_msg(&vote(6)), Route::Forward);
    assert_eq!(state.route_msg(&vote(4)), Route::Drop);
    assert_eq!(state.route_msg(&OverlordMsg::RichStatus(status(1))), Route::Forward);
    assert_eq!(state.route_msg(&OverlordMsg::Stop), Route::Forward);
}

#[test]
fn unknown_voter_is_refused() {
    let mut state = fresh(1, 1);
    let mut vote = signed_vote(1, 0, VoteType::Prevote, vec![1], 1);
    vote.voter = vec![0x66];
    let out = state.handle_signed_vote(vote);
    assert!(matches!(out.error, Some(ConsensusError::InvalidAddress)));
    assert!(out.actions.is_empty());
    assert!(state.votes.votes.is_empty());
}

#[test]
fn quorum_needs_more_than_two_thirds() {
    let mut state = fresh(1, 1);
    state.is_leader = true;
    let hash = vec![0x11];
    for voter in [3, 0] {
        let out = state.handle_signed_vote(signed_vote(1, 0, VoteType::Prevote, hash.clone(), voter));
        assert!(out.error.is_none());
        assert!(out.actions.is_empty());
        assert_eq!(state.counting_vote(VoteType::Prevote).unwrap(), None);
    }
    // a vote for another block, a vote of another round and a vote of another type do not count
    state.handle_signed_vote(signed_vote(1, 0, VoteType::Prevote, vec![0x22], 2));
    state.handle_signed_vote(signed_vote(1, 1, VoteType::Prevote, hash.clone(), 1));
    state.handle_signed_vote(signed_vote(1, 0, VoteType::Precommit, hash.clone(), 1));
    assert_eq!(state.counting_vote(VoteType::Prevote).unwrap(), None);
    assert_eq!(state.tally_for(VoteType::Prevote, &hash).unwrap(), 2);
    // a second vote of a voter does not count either
    let out = state.handle_signed_vote(signed_vote(1, 0, VoteType::Prevote, hash.clone(), 3));
    assert!(out.actions.is_empty());
    assert_eq!(state.tally_for(VoteType::Prevote, &hash).unwrap(), 2);
    // the third voter makes the quorum: 3 * 3 > 4 * 2
    let out = state.handle_signed_vote(signed_vote(1, 0, VoteType::Prevote, hash.clone(), 1));
    assert!(out.error.is_none());
    assert_eq!(out.actions.len(), 1);
    assert_eq!(state.counting_vote(VoteType::Prevote).unwrap(), Some(hash.clone()));
    match &out.actions[0] {
        Action::AggregateVotes(draft) => {
            assert_eq!(draft.vote_type, VoteType::Prevote);
            assert_eq!((draft.height, draft.round), (1, 0));
            assert_eq!(draft.block_hash, hash);
            assert_eq!(draft.leader, addr(1));
            // the voters in ascending order of address, whatever order the votes came in
            assert_eq!(draft.voters, vec![addr(0), addr(1), addr(3)]);
            assert_eq!(
                draft.signatures,
                vec![sign(&addr(0), &[1]), sign(&addr(1), &[1]), sign(&addr(3), &[1])]
            );
            // the nodes 0, 1 and 3 of the sorted list of four
            assert_eq!(draft.address_bitmap, vec![0b1101_0000]);
        }
        other => panic!("unexpected action {:?}", other),
    }
}

#[test]
fn quorum_counts_weight_not_heads() {
    let list = vec![
        Node { address: addr(0), propose_weight: 1, vote_weight: 10 },
        Node { address: addr(1), propose_weight: 1, vote_weight: 1 },
        Node { address: addr(2), propose_weight: 1, vote_weight: 1 },
        Node { address: addr(3), propose_weight: 1, vote_weight: 1 },
    ];
    let mut state = State::new(addr(1), 1, INTERVAL, list);
    state.is_leader = true;
    let hash = vec![0x11];
    for voter in [1, 2, 3] {
        let out = state.handle_signed_vote(signed_vote(1, 0, VoteType::Precommit, hash.clone(), voter));
        assert!(out.actions.is_empty());
    }
    assert_eq!(state.tally_for(VoteType::Precommit, &hash).unwrap(), 3);
    let out = state.votes_aggregated(hash.clone(), VoteType::Precommit, vec![1]);
    assert!(matches!(out.error, Some(ConsensusError::CorrectnessErr(_))));
    assert!(out.actions.is_empty());
    let mut state = State::new(addr(1), 1, INTERVAL, state.authority.current.clone());
    let out = state.handle_signed_vote(signed_vote(1, 0, VoteType::Precommit, hash.clone(), 0));
    // 10 * 3 > 13 * 2
    assert_eq!(out.actions.len(), 1);
    match &out.actions[0] {
        Action::AggregateVotes(draft) => assert_eq!(draft.address_bitmap, vec![0b1000_0000]),
        other => panic!("unexpected action {:?}", other),
    }
}

#[test]
fn certificate_is_made_stored_and_published() {
    let mut state = fresh(1, 1);
    state.is_leader = true;
    let hash = vec![0x11];
    for voter in [0, 1, 2] {
        state.handle_signed_vote(signed_vote(1, 0, VoteType::Prevote, hash.clone(), voter));
    }
    // the block has not passed its check: the certificate is sent, the state machine not yet told
    let out = state.votes_aggregated(hash.clone(), VoteType::Prevote, vec![0x51]);
    assert!(out.error.is_none());
    let expected = AggregatedVote {
        signature: AggregatedSignature { signature: vec![0x51], address_bitmap: vec![0b1110_0000] },
        vote_type: VoteType::Prevote,
        height: 1,
        round: 0,
        block_hash: hash.clone(),
        leader: addr(1),
    };
    assert_eq!(out.actions, vec![Action::Broadcast(OverlordMsg::AggregatedVote(expected.clone()))]);
    assert_eq!(state.votes.get_qc_by_id(1, 0, VoteType::Prevote).unwrap(), expected);
    // once the block has passed, the certificate goes to the state machine
    let out = state.handle_resp(Some(VerifyResp { height: 1, round: 0, block_hash: hash.clone(), is_pass: true }));
    assert_eq!(out.actions, vec![state_trigger(TriggerType::PrevoteQC, hash.clone(), None, 0, 1)]);
    assert!(state.try_get_full_txs(&hash));
    // a later vote for the slot is dropped
    let out = state.handle_signed_vote(signed_vote(1, 0, VoteType::Prevote, hash.clone(), 3));
    assert!(out.actions.is_empty());
    assert_eq!(state.votes.vote_count(1, 0, VoteType::Prevote), 3);
}

#[test]
fn full_transactions() {
    let mut state = fresh(1, 1);
    assert!(state.try_get_full_txs(&vec![]));
    assert!(!state.try_get_full_txs(&vec![1]));
    state.handle_resp(Some(VerifyResp { height: 1, round: 0, block_hash: vec![1], is_pass: true }));
    state.handle_resp(Some(VerifyResp { height: 1, round: 0, block_hash: vec![2], is_pass: false }));
    state.handle_resp(Some(VerifyResp { height: 2, round: 0, block_hash: vec![3], is_pass: true }));
    assert!(state.try_get_full_txs(&vec![1]));
    assert!(!state.try_get_full_txs(&vec![2]));
    assert!(!state.try_get_full_txs(&vec![3]));
    let out = state.handle_resp(None);
    assert!(matches!(out.error, Some(ConsensusError::Other(_))));
}

#[test]
fn certificates_are_triaged_by_height() {
    let mut state = fresh(1, 10);
    state.round = 2;
    // lower: dropped
    let out = state.handle_aggregated_vote(qc(9, 0, VoteType::Prevote, vec![]));
    assert!(out.actions.is_empty() && state.votes.qcs.is_empty());
    // higher, within the gap: kept, and nothing is handed on
    let out = state.handle_aggregated_vote(qc(14, 9, VoteType::Prevote, vec![1]));
    assert!(out.actions.is_empty() && out.error.is_none());
    assert_eq!(state.votes.qcs.len(), 1);
    // the fifth height ahead and the tenth round are within the gap still
    let out = state.handle_aggregated_vote(qc(15, 0, VoteType::Prevote, vec![1]));
    assert!(out.actions.is_empty() && out.error.is_none());
    assert_eq!(
        state.votes.get_qc_by_id(15, 0, VoteType::Prevote).unwrap(),
        qc(15, 0, VoteType::Prevote, vec![1])
    );
    state.handle_aggregated_vote(qc(14, 10, VoteType::Precommit, vec![1]));
    assert_eq!(
        state.votes.get_qc_by_id(14, 10, VoteType::Precommit).unwrap(),
        qc(14, 10, VoteType::Precommit, vec![1])
    );
    state.handle_aggregated_vote(qc(15, 10, VoteType::Precommit, vec![]));
    assert_eq!(state.votes.qcs.len(), 4);
    // higher, beyond the gap: dropped
    state.handle_aggregated_vote(qc(16, 0, VoteType::Prevote, vec![1]));
    state.handle_aggregated_vote(qc(14, 11, VoteType::Precommit, vec![1]));
    state.handle_aggregated_vote(qc(u64::MAX, 0, VoteType::Precommit, vec![1]));
    state.handle_aggregated_vote(qc(11, u64::MAX, VoteType::Precommit, vec![1]));
    assert_eq!(state.votes.qcs.len(), 4);
    // a certificate takes the place of the one held for its slot
    state.handle_aggregated_vote(qc(15, 0, VoteType::Prevote, vec![2]));
    assert_eq!(
        state.votes.get_qc_by_id(15, 0, VoteType::Prevote).unwrap(),
        qc(15, 0, VoteType::Prevote, vec![2])
    );
    assert_eq!(state.votes.qcs.len(), 4);
    state.votes.flush(15);
    assert!(state.votes.qcs.is_empty());
    state.handle_aggregated_vote(qc(14, 9, VoteType::Prevote, vec![1]));
    // equal, outdated: dropped
    state.handle_aggregated_vote(qc(10, 1, VoteType::Prevote, vec![1]));
    state.handle_aggregated_vote(qc(10, 1, VoteType::Precommit, vec![]));
    assert_eq!(state.votes.qcs.len(), 1);
    // equal, for no block: kept and handed on
    let out = state.handle_aggregated_vote(qc(10, 2, VoteType::Prevote, vec![]));
    assert_eq!(out.actions, vec![state_trigger(TriggerType::PrevoteQC, vec![], None, 2, 10)]);
    // equal, for a block that has not passed: kept, not handed on
    let out = state.handle_aggregated_vote(qc(10, 1, VoteType::Precommit, vec![7]));
    assert!(out.actions.is_empty());
    assert_eq!(state.votes.qcs.len(), 3);
    // once the block has passed the precommit certificate is handed on
    let out = state.handle_resp(Some(VerifyResp { height: 10, round: 2, block_hash: vec![7], is_pass: true }));
    assert_eq!(out.actions, vec![state_trigger(TriggerType::PrecommitQC, vec![7], None, 1, 10)]);
}

#[test]
fn choke_certificate_below_threshold_is_refused() {
    let mut state = fresh(1, 1);
    let two = AggregatedChoke { height: 1, round: 3, signature: vec![], voters: vec![addr(0), addr(1)] };
    let out = state.handle_aggregated_choke(two);
    assert!(matches!(out.error, Some(ConsensusError::BrakeErr(_))));
    assert!(state.chokes.qcs.is_empty());
    let three = AggregatedChoke {
        height: 1,
        round: 3,
        signature: vec![],
        voters: vec![addr(0), addr(1), addr(2)],
    };
    let out = state.handle_aggregated_choke(three.clone());
    assert_eq!(out.actions, vec![state_trigger(TriggerType::ContinueRound, vec![], None, 4, 1)]);
    assert_eq!(state.chokes.get_qc(3), Some(three));
    let last = AggregatedChoke {
        height: 1,
        round: u64::MAX,
        signature: vec![],
        voters: vec![addr(0), addr(1), addr(2)],
    };
    let out = state.handle_aggregated_choke(last);
    assert!(matches!(out.error, Some(ConsensusError::BrakeErr(_))));
}

#[test]
fn view_change_reasons() {
    let mut state = fresh(0, 1);
    // the jump certificate is the reason where it is of another round
    assert_eq!(
        state.view_change_reason(0, &FromWhere::ChokeQC(2)),
        ViewChangeReason::UpdateFromHigherChokeQC(0, 2)
    );
    assert_eq!(
        state.view_change_reason(1, &FromWhere::PrevoteQC(2)),
        ViewChangeReason::UpdateFromHigherPrevoteQC(1, 2)
    );
    assert_eq!(
        state.view_change_reason(1, &FromWhere::PrecommitQC(4)),
        ViewChangeReason::UpdateFromHigherPrecommitQC(1, 4)
    );
    // a replica reports what it lacks
    let from = FromWhere::PrecommitQC(0);
    assert_eq!(state.view_change_reason(0, &from), ViewChangeReason::NoProposalFromNetwork);
    state.handle_signed_proposal(signed_proposal(1, 0, 1, 0x11, None));
    assert_eq!(state.view_change_reason(0, &from), ViewChangeReason::CheckBlockNotPass);
    state.handle_resp(Some(VerifyResp { height: 1, round: 0, block_hash: vec![0x11], is_pass: true }));
    assert_eq!(state.view_change_reason(0, &from), ViewChangeReason::NoPrevoteQCFromNetwork);
    state.votes.set_qc(qc(1, 0, VoteType::Prevote, vec![0x11]));
    assert_eq!(state.view_change_reason(0, &from), ViewChangeReason::NoPrecommitQCFromNetwork);
    state.votes.set_qc(qc(1, 0, VoteType::Precommit, vec![]));
    assert_eq!(state.view_change_reason(0, &from), ViewChangeReason::Others);
    // a leader reports the votes that it lacked
    state.is_leader = true;
    assert_eq!(
        state.view_change_reason(0, &from),
        ViewChangeReason::LeaderReceivedVoteBelowThreshold(VoteType::Precommit)
    );
    assert_eq!(
        state.view_change_reason(1, &FromWhere::PrecommitQC(1)),
        ViewChangeReason::LeaderReceivedVoteBelowThreshold(VoteType::Prevote)
    );
}

#[test]
fn update_from_is_taken_from_the_collectors() {
    let mut state = fresh(0, 1);
    assert!(matches!(
        state.set_update_from(FromWhere::PrevoteQC(0)),
        Err(ConsensusError::StorageErr(_))
    ));
    assert!(matches!(
        state.set_update_from(FromWhere::PrecommitQC(0)),
        Err(ConsensusError::StorageErr(_))
    ));
    assert!(matches!(state.set_update_from(FromWhere::ChokeQC(0)), Err(ConsensusError::BrakeErr(_))));
    state.votes.set_qc(qc(1, 0, VoteType::Prevote, vec![1]));
    state.set_update_from(FromWhere::PrevoteQC(0)).unwrap();
    assert_eq!(state.update_from_where, UpdateFrom::PrevoteQC(qc(1, 0, VoteType::Prevote, vec![1])));
    state.set_update_from(FromWhere::PrecommitQC(u64::MAX)).unwrap();
    assert_eq!(state.update_from_where, UpdateFrom::PrecommitQC(mock_init_qc()));
    let choke_qc = AggregatedChoke { height: 1, round: 2, signature: vec![], voters: vec![] };
    state.chokes.set_qc(2, choke_qc.clone());
    state.set_update_from(FromWhere::ChokeQC(2)).unwrap();
    assert_eq!(state.update_from_where, UpdateFrom::ChokeQC(choke_qc));
}

#[test]
fn wal_record_with_lock_round_needs_certificate_and_block() {
    let mut state = fresh(0, 1);
    let wal = state.wal_with_lock_round(Step::Prevote, None).unwrap();
    assert_eq!(
        wal,
        WalInfo {
            height: 1,
            round: 0,
            step: Step::Prevote,
            lock: None,
            from: UpdateFrom::PrecommitQC(mock_init_qc()),
        }
    );
    assert!(matches!(
        state.wal_with_lock_round(Step::Prevote, Some(0)),
        Err(ConsensusError::Other(_))
    ));
    state.votes.set_qc(qc(1, 0, VoteType::Prevote, vec![0x11]));
    assert!(matches!(
        state.wal_with_lock_round(Step::Prevote, Some(0)),
        Err(ConsensusError::Other(_))
    ));
    state.hash_with_block.insert(vec![0x11], vec![1, 2, 3]);
    let wal = state.wal_with_lock_round(Step::Precommit, Some(0)).unwrap();
    assert_eq!(
        wal.lock,
        Some(WalLock {
            lock_round: 0,
            lock_votes: qc(1, 0, VoteType::Prevote, vec![0x11]),
            content: vec![1, 2, 3],
        })
    );
    assert_eq!(wal.step, Step::Precommit);
}

#[test]
fn proposal_of_the_wrong_proposer_is_refused() {
    let mut state = fresh(0, 1);
    let out = state.handle_signed_proposal(signed_proposal(1, 0, 2, 0x11, None));
    assert!(matches!(out.error, Some(ConsensusError::ProposalErr(_))));
    assert!(out.actions.is_empty());
    assert!(state.proposals.entries.is_empty());
    let mut foreign = signed_proposal(1, 0, 1, 0x11, None);
    foreign.proposal.proposer = vec![0x77];
    let out = state.handle_signed_proposal(foreign);
    assert!(matches!(out.error, Some(ConsensusError::ProposalErr(_))));
    assert!(state.proposals.entries.is_empty());
}

#[test]
fn proposal_of_the_current_slot_is_taken_in() {
    let mut state = fresh(0, 1);
    let sp = signed_proposal(1, 0, 1, 0x11, None);
    let out = state.handle_signed_proposal(sp.clone());
    assert!(out.error.is_none());
    assert_eq!(
        out.actions,
        vec![
            Action::MarkHeightStart,
            state_trigger(TriggerType::Proposal, vec![0x11], None, 0, 1),
            Action::CheckBlock { height: 1, round: 0, hash: vec![0x11], block: vec![0x11, 0x11] },
        ]
    );
    assert_eq!(state.proposals.get(1, 0).unwrap(), sp);
    assert_eq!(state.hash_with_block.get(&vec![0x11]), Some(&vec![0x11, 0x11]));
}

#[test]
fn proposal_with_lock_carries_its_lock_round() {
    let mut state = fresh(0, 1);
    state.round = 2;
    let polc = PoLC { lock_round: 1, lock_votes: qc(1, 1, VoteType::Prevote, vec![0x11]) };
    let out = state.handle_signed_proposal(signed_proposal(1, 2, 3, 0x11, Some(polc)));
    assert_eq!(out.actions[1], state_trigger(TriggerType::Proposal, vec![0x11], Some(1), 2, 1));
}

#[test]
fn proposal_of_a_later_slot_is_kept_for_later() {
    let mut state = fresh(0, 1);
    let later_round = signed_proposal(1, 1, 2, 0x11, None);
    let later_height = signed_proposal(2, 0, 2, 0x22, None);
    for sp in [later_round.clone(), later_height.clone()] {
        let out = state.handle_signed_proposal(sp);
        assert!(out.error.is_none());
        assert_eq!(out.actions, vec![Action::MarkHeightStart]);
    }
    assert_eq!(state.proposals.entries, vec![later_round, later_height]);
    assert_eq!(state.hash_with_block.get(&vec![0x11]), None);
    // too far ahead: dropped
    let out = state.handle_signed_proposal(signed_proposal(7, 0, 3, 0x11, None));
    assert_eq!(out.actions, vec![Action::MarkHeightStart]);
    assert_eq!(state.proposals.entries.len(), 2);
}

#[test]
fn equivocating_proposer() {
    let mut state = fresh(0, 1);
    let first = signed_proposal(1, 0, 1, 0x11, None);
    let second = signed_proposal(1, 0, 1, 0x22, None);
    assert!(state.handle_signed_proposal(first.clone()).error.is_none());
    let out = state.handle_signed_proposal(second);
    assert!(matches!(out.error, Some(ConsensusError::MultiProposal(1, 0))));
    assert_eq!(out.actions, vec![Action::MarkHeightStart]);
    assert_eq!(state.proposals.entries, vec![first]);
}

#[test]
fn replica_without_power_takes_in_a_status_only() {
    let mut state = State::new(vec![0x55], 0, INTERVAL, authority());
    let out = state.handle_msg(OverlordMsg::SignedVote(signed_vote(0, 0, VoteType::Prevote, vec![], 1)));
    assert!(out.actions.is_empty() && out.error.is_none());
    assert!(state.votes.votes.is_empty());
    let out = state.handle_msg(OverlordMsg::RichStatus(status(3)));
    assert!(out.actions.is_empty());
    assert_eq!((state.height, state.round, state.consensus_power), (3, 0, false));
    let mut list = authority();
    list.push(Node::new(vec![0x55]));
    let joined = Status { height: 4, interval: Some(1000), timer_config: None, authority_list: list };
    let out = state.handle_msg(OverlordMsg::RichStatus(joined.clone()));
    assert!(state.consensus_power);
    assert_eq!(state.authority.len(), 5);
    assert_eq!(out.actions.len(), 2);
    assert!(matches!(out.actions[0], Action::SaveWal(_)));
    assert_eq!(out.actions[1], Action::EnterHeight(joined.clone()));
    // the interval is taken over once the record is written
    assert_eq!(state.block_interval, INTERVAL);
    let out = state.height_recorded(joined);
    assert_eq!(state.block_interval, 1000);
    assert_eq!(out.actions.len(), 2);
    assert_eq!(out.actions[0], Action::MarkHeightStart);
}

#[test]
fn stale_status_changes_nothing() {
    let mut state = fresh(0, 5);
    state.round = 2;
    for h in [0, 4, 5] {
        let out = state.goto_new_height(status(h));
        assert!(out.actions.is_empty() && out.error.is_none());
        assert_eq!((state.height, state.round), (5, 2));
    }
}

#[test]
fn new_height_flushes_and_hands_out_what_was_held_back() {
    let mut state = fresh(0, 1);
    state.handle_signed_proposal(signed_proposal(1, 0, 1, 0x11, None));
    state.handle_signed_proposal(signed_proposal(2, 0, 2, 0x22, None));
    state.handle_signed_proposal(signed_proposal(3, 0, 3, 0x33, None));
    state.handle_signed_vote(signed_vote(1, 0, VoteType::Prevote, vec![0x11], 2));
    state.handle_signed_vote(signed_vote(2, 0, VoteType::Prevote, vec![0x22], 2));
    state.handle_signed_vote(signed_vote(3, 0, VoteType::Prevote, vec![0x33], 2));
    state.handle_aggregated_vote(qc(2, 0, VoteType::Prevote, vec![0x22]));
    state.handle_aggregated_vote(qc(1, 0, VoteType::Prevote, vec![]));
    state.chokes.insert(SignedChoke {
        signature: vec![],
        choke: Choke { height: 1, round: 0, from: UpdateFrom::PrecommitQC(mock_init_qc()) },
        address: addr(1),
    });
    let new_status = Status { height: 2, interval: Some(500), timer_config: None, authority_list: authority() };
    let out = state.goto_new_height(new_status.clone());
    assert!(out.error.is_none());
    assert_eq!(
        out.actions,
        vec![
            Action::SaveWal(WalInfo {
                height: 2,
                round: 0,
                step: Step::Propose,
                lock: None,
                from: UpdateFrom::PrecommitQC(mock_init_qc()),
            }),
            Action::EnterHeight(new_status.clone()),
        ]
    );
    // before the record is written nothing is dropped and nothing is handed out
    assert_eq!((state.height, state.round, state.block_interval), (2, 0, INTERVAL));
    assert_eq!(state.proposals.entries.len(), 3);
    assert_eq!(state.votes.votes.len(), 3);
    assert_eq!(state.votes.qcs.len(), 2);
    assert_eq!(state.chokes.chokes.len(), 1);
    assert_eq!(state.hash_with_block.get(&vec![0x11]), Some(&vec![0x11, 0x11]));
    assert_eq!(state.authority.last, state.authority.current);
    let out = state.height_recorded(new_status);
    assert!(out.error.is_none());
    assert_eq!(
        out.actions,
        vec![
            Action::MarkHeightStart,
            Action::Verify(OverlordMsg::SignedProposal(signed_proposal(2, 0, 2, 0x22, None))),
            Action::Verify(OverlordMsg::SignedVote(signed_vote(2, 0, VoteType::Prevote, vec![0x22], 2))),
            Action::Verify(OverlordMsg::AggregatedVote(qc(2, 0, VoteType::Prevote, vec![0x22]))),
            state_trigger(
                TriggerType::NewHeight(overlord::smr::smr_types::SMRStatus {
                    height: 2,
                    new_interval: Some(500),
                    new_config: None
                }),
                vec![],
                None,
                0,
                2
            ),
        ]
    );
    assert_eq!((state.height, state.round, state.block_interval), (2, 0, 500));
    assert_eq!(state.proposals.entries, vec![signed_proposal(3, 0, 3, 0x33, None)]);
    assert_eq!(state.votes.votes, vec![signed_vote(3, 0, VoteType::Prevote, vec![0x33], 2)]);
    assert!(state.votes.qcs.is_empty());
    assert!(state.chokes.chokes.is_empty());
    assert_eq!(state.hash_with_block.get(&vec![0x11]), None);
    assert_eq!(state.authority.last, state.authority.current);
}

#[test]
fn commit_needs_block_and_certificate() {
    let mut state = fresh(0, 1);
    let hash = vec![0x11];
    let out = state.handle_commit(hash.clone());
    assert!(matches!(out.error, Some(ConsensusError::StorageErr(_))));
    state.handle_signed_proposal(signed_proposal(1, 0, 1, 0x11, None));
    let out = state.handle_commit(hash.clone());
    assert!(matches!(out.error, Some(ConsensusError::StorageErr(_))));
    assert!(out.actions.is_empty());
    state.votes.set_qc(qc(1, 0, VoteType::Prevote, hash.clone()));
    let out = state.handle_commit(hash.clone());
    assert!(matches!(out.error, Some(ConsensusError::StorageErr(_))));
    let precommit_qc = qc(1, 0, VoteType::Precommit, hash.clone());
    state.votes.set_qc(precommit_qc.clone());
    let out = state.handle_commit(hash.clone());
    assert!(out.error.is_none());
    assert_eq!(
        out.actions,
        vec![
            Action::SaveWal(WalInfo {
                height: 1,
                round: 0,
                step: Step::Commit,
                lock: Some(WalLock { lock_round: 0, lock_votes: precommit_qc.clone(), content: vec![0x11, 0x11] }),
                from: UpdateFrom::PrecommitQC(mock_init_qc()),
            }),
            Action::Commit {
                height: 1,
                commit: Commit {
                    height: 1,
                    content: vec![0x11, 0x11],
                    proof: Proof {
                        height: 1,
                        round: 0,
                        block_hash: hash,
                        signature: precommit_qc.signature,
                    },
                },
            },
        ]
    );
}

#[test]
fn next_proposer_waits_for_the_rest_of_the_interval() {
    // the proposer of height 2 and round 0 is the node 2
    let mut state = fresh(2, 1);
    let out = state.commit_done(status(2), 1000);
    assert_eq!(out.actions[0], Action::Sleep(2000));
    assert!(matches!(out.actions[1], Action::SaveWal(_)));
    assert_eq!(state.height, 2);
    let mut state = fresh(2, 1);
    let out = state.commit_done(status(2), INTERVAL);
    assert!(matches!(out.actions[0], Action::SaveWal(_)));
    let mut state = fresh(1, 1);
    let out = state.commit_done(status(2), 0);
    assert!(matches!(out.actions[0], Action::SaveWal(_)));
    let mut state = fresh(1, 1);
    let empty = Status { height: 2, interval: None, timer_config: None, authority_list: vec![] };
    let out = state.commit_done(empty, 0);
    assert!(matches!(out.error, Some(ConsensusError::Other(_))));
    assert_eq!(state.height, 1);
}

#[test]
fn brake_of_another_round_is_an_error() {
    let state = fresh(0, 1);
    let out = state.handle_brake(1, None);
    assert!(matches!(out.error, Some(ConsensusError::CorrectnessErr(_))));
    let out = state.handle_brake(0, Some(0));
    assert_eq!(
        out.actions,
        vec![Action::SignChoke {
            choke: Choke { height: 1, round: 0, from: UpdateFrom::PrecommitQC(mock_init_qc()) },
            lock_round: Some(0),
        }]
    );
}

#[test]
fn brake_event_of_another_height_is_dropped() {
    let mut state = fresh(0, 1);
    let out = state.handle_event(Some(SMREvent::Brake { height: 2, round: 0, lock_round: None }));
    assert!(out.actions.is_empty() && out.error.is_none());
    let out = state.handle_event(None);
    assert!(matches!(out.error, Some(ConsensusError::Other(_))));
    let out = state.handle_event(Some(SMREvent::Stop));
    assert!(out.actions.is_empty());
    assert!(state.stopped);
}

#[test]
fn stop_is_handed_to_the_state_machine() {
    let mut state = fresh(0, 1);
    let out = state.handle_msg(OverlordMsg::Stop);
    assert_eq!(out.actions, vec![state_trigger(TriggerType::Stop, vec![], None, 0, 1)]);
    assert!(state.stopped);
}

#[test]
fn inconsistent_lock_in_new_round_is_an_error() {
    let mut state = fresh(0, 1);
    let out = state.handle_new_round(1, Some(0), None, FromWhere::PrecommitQC(0));
    assert!(matches!(out.error, Some(ConsensusError::ProposalErr(_))));
    assert_eq!(
        out.actions,
        vec![Action::ReportViewChange {
            height: 1,
            round: 0,
            reason: ViewChangeReason::NoProposalFromNetwork
        }]
    );
    assert_eq!(state.round, 1);
    let out = state.handle_new_round(2, None, Some(vec![1]), FromWhere::PrecommitQC(1));
    assert!(matches!(out.error, Some(ConsensusError::ProposalErr(_))));
}

#[test]
fn vote_is_recorded_before_it_is_sent() {
    let mut state = fresh(0, 1);
    state.is_proposer().unwrap();
    let vote = Vote { height: 1, round: 0, vote_type: VoteType::Prevote, block_hash: vec![] };
    let signed = SignedVote { signature: vec![7], vote: vote.clone(), voter: addr(0) };
    let out = state.vote_signed(vote.clone(), vec![7], None);
    assert!(out.error.is_none());
    assert_eq!(
        out.actions,
        vec![
            Action::SaveWal(WalInfo {
                height: 1,
                round: 0,
                step: Step::Prevote,
                lock: None,
                from: UpdateFrom::PrecommitQC(mock_init_qc()),
            }),
            Action::CastVote(signed.clone()),
        ]
    );
    assert!(state.votes.votes.is_empty());
    let out = state.vote_recorded(signed.clone());
    assert!(out.error.is_none());
    assert_eq!(out.actions, vec![Action::Transmit(addr(1), OverlordMsg::SignedVote(signed))]);
    assert!(state.votes.votes.is_empty());
    // with a lock round that the state knows nothing of, nothing is sent
    let out = state.vote_signed(vote, vec![7], Some(0));
    assert!(matches!(out.error, Some(ConsensusError::Other(_))));
    assert!(out.actions.is_empty());
}

#[test]
fn leader_keeps_its_vote_once_the_record_is_written() {
    let mut state = fresh(1, 1);
    assert!(state.is_proposer().unwrap());
    let vote = Vote { height: 1, round: 0, vote_type: VoteType::Precommit, block_hash: vec![0x11] };
    let signed = SignedVote { signature: vec![7], vote: vote.clone(), voter: addr(1) };
    let out = state.vote_signed(vote, vec![7], None);
    assert_eq!(out.actions.len(), 2);
    assert!(matches!(&out.actions[0], Action::SaveWal(w) if w.step == Step::Precommit));
    assert_eq!(out.actions[1], Action::CastVote(signed.clone()));
    assert!(state.votes.votes.is_empty());
    let out = state.vote_recorded(signed.clone());
    assert!(out.error.is_none() && out.actions.is_empty());
    assert_eq!(state.votes.votes, vec![signed.clone()]);
    // a second vote of the leader for the slot is not kept
    let mut other = signed.clone();
    other.vote.block_hash = vec![0x22];
    state.vote_recorded(other);
    assert_eq!(state.votes.votes, vec![signed]);
}

#[test]
fn nothing_is_kept_or_sent_when_the_record_is_refused() {
    for i in [0u8, 1u8] {
        let mut node = Replica::new(i);
        node.receive(OverlordMsg::RichStatus(status(1)));
        let records = node.wal.len();
        let held = node.state.votes.votes.len();
        node.outbox.clear();
        let vote = || SMREvent::PrecommitVote {
            height: 1,
            round: 0,
            block_hash: vec![0x11],
            lock_round: None,
        };
        node.wal_fails = true;
        let out = node.state.handle_event(Some(vote()));
        assert!(!node.perform(out));
        assert_eq!(node.state.votes.votes.len(), held);
        assert!(node.outbox.is_empty());
        assert_eq!(node.wal.len(), records);
        assert_eq!(node.log.last().map(|s| s.as_str()), Some("wal refused"));
        // with the record written the leader keeps the vote, and the others send it
        node.wal_fails = false;
        let out = node.state.handle_event(Some(vote()));
        assert!(node.perform(out));
        assert_eq!(node.wal.len(), records + 1);
        if node.state.is_leader {
            assert_eq!(node.state.votes.votes.len(), held + 1);
            assert!(node.outbox.is_empty());
        } else {
            assert_eq!(node.state.votes.votes.len(), held);
            assert_eq!(node.outbox.len(), 1);
            assert!(matches!(&node.outbox[0], (Some(to), OverlordMsg::SignedVote(_)) if *to == addr(1)));
        }
        node.outbox.clear();
        node.wal_fails = true;
        // a new round is not entered either: the leader is not noted and nothing is proposed
        let out = node.state.handle_event(Some(SMREvent::NewRoundInfo {
            height: 1,
            round: 1,
            lock_round: None,
            lock_proposal: None,
            from_where: FromWhere::PrecommitQC(u64::MAX),
            new_interval: None,
            new_config: None,
        }));
        assert!(!node.perform(out));
        assert_eq!(node.state.round, 1);
        assert!(!node.state.is_leader);
        assert!(node.outbox.is_empty());
        // nor a height: what is held for it stays with the collectors
        node.state.handle_signed_vote(signed_vote(2, 0, VoteType::Prevote, vec![0x22], 2));
        let held = node.state.votes.votes.len();
        let out = node.state.goto_new_height(status(2));
        assert!(!node.perform(out));
        assert_eq!(node.state.height, 2);
        assert_eq!(node.state.votes.votes.len(), held);
    }
}

#[test]
fn vote_of_a_voter_of_the_previous_list_only_is_not_counted() {
    let mut state = fresh(1, 1);
    // at the next height the node 3 has left the list
    let list = vec![Node::new(addr(0)), Node::new(addr(1)), Node::new(addr(2))];
    let next = Status { height: 2, interval: None, timer_config: None, authority_list: list };
    state.goto_new_height(next.clone());
    state.height_recorded(next);
    assert!(state.verify_address(&addr(3)).is_ok());
    state.is_proposer().unwrap();
    state.is_leader = true;
    let out = state.handle_signed_vote(signed_vote(2, 0, VoteType::Prevote, vec![0x22], 3));
    assert!(out.error.is_none() && out.actions.is_empty());
    assert!(state.votes.votes.is_empty());
    // for a later height it is kept: the list of that height is not known yet
    let out = state.handle_signed_vote(signed_vote(3, 0, VoteType::Prevote, vec![0x22], 3));
    assert!(out.error.is_none() && out.actions.is_empty());
    assert_eq!(state.votes.votes.len(), 1);
    // the votes of the current list are counted as before
    for i in [0u8, 1u8] {
        let out = state.handle_signed_vote(signed_vote(2, 0, VoteType::Prevote, vec![0x22], i));
        assert!(out.error.is_none() && out.actions.is_empty());
    }
    let out = state.handle_signed_vote(signed_vote(2, 0, VoteType::Prevote, vec![0x22], 2));
    assert!(out.error.is_none());
    assert!(matches!(&out.actions[0], Action::AggregateVotes(d) if d.voters.len() == 3));
}

// Happy path, 4 nodes, weight 1 each.
#[test]
fn happy_path() {
    let mut net = Net::new();
    net.start(1);
    let (block, hash) = block_of(1, &addr(1));
    for node in net.nodes.iter() {
        assert!(node.errors.is_empty(), "{:?}", node.errors);
        assert_eq!(node.commits.len(), 1);
        let (height, commit) = &node.commits[0];
        assert_eq!(*height, 1);
        assert_eq!(commit.height, 1);
        assert_eq!(commit.content, block);
        assert_eq!(commit.proof.height, 1);
        assert_eq!(commit.proof.round, 0);
        assert_eq!(commit.proof.block_hash, hash);
        // the leader had the votes of itself and of the two whose votes came first
        assert_eq!(commit.proof.signature.address_bitmap, vec![0b1110_0000]);
        assert_eq!(
            commit.proof.signature.signature,
            [vec![3u8], addr(0), addr(1), addr(2)].concat()
        );
        assert_eq!((node.state.height, node.state.round), (2, 0));
        assert_eq!((node.smr.height, node.smr.round), (2, 0));
        assert!(node.reasons.is_empty());
        // every step was recorded before anything was sent for it
        let steps = node.wal.iter().map(|w| (w.height, w.round, w.step)).collect::<Vec<_>>();
        assert_eq!(
            steps,
            vec![
                (1, 0, Step::Propose),
                (1, 0, Step::Propose),
                (1, 0, Step::Prevote),
                (1, 0, Step::Precommit),
                (1, 0, Step::Commit),
                (2, 0, Step::Propose),
                (2, 0, Step::Propose),
            ]
        );
    }
    // the proposer of the height 2 is the node 2, and it has asked for a block
    assert_eq!(net.nodes[2].state.leader_address, addr(2));
    assert!(net.nodes[2].state.is_leader);
    assert_eq!(net.nodes[2].log.last().unwrap(), "no block");
    assert!(!net.nodes[0].state.is_leader);
}

fn lose_proposals(_from: &[u8], msg: &OverlordMsg) -> bool {
    matches!(msg, OverlordMsg::SignedProposal(_))
}

// Leader silent, round change via null precommit.
#[test]
fn silent_leader() {
    let mut net = Net::new();
    net.lose = lose_proposals;
    net.start(1);
    for i in [0, 2, 3] {
        assert_eq!(net.nodes[i].smr.step, Step::Propose);
        net.nodes[i].timeout(TriggerType::Proposal);
    }
    net.run();
    for i in 0..4 {
        let node = &net.nodes[i];
        assert!(node.errors.is_empty(), "{:?}", node.errors);
        assert!(node.commits.is_empty());
        assert_eq!((node.state.height, node.state.round), (1, 1));
        assert_eq!((node.smr.height, node.smr.round), (1, 1));
        let expected = if i == 1 {
            ViewChangeReason::LeaderReceivedVoteBelowThreshold(VoteType::Prevote)
        } else {
            ViewChangeReason::NoProposalFromNetwork
        };
        assert_eq!(node.reasons, vec![(1, 0, expected)]);
        match &node.state.update_from_where {
            UpdateFrom::PrecommitQC(qc) => {
                assert_eq!((qc.height, qc.round), (1, 0));
                assert!(qc.block_hash.is_empty());
            }
            other => panic!("unexpected {:?}", other),
        }
    }
}

fn lose_precommits_of_round_zero(_from: &[u8], msg: &OverlordMsg) -> bool {
    match msg {
        OverlordMsg::SignedVote(sv) => sv.vote.vote_type == VoteType::Precommit && sv.vote.round == 0,
        _ => false,
    }
}

// Lock carry across rounds.
#[test]
fn lock_carry() {
    let mut net = Net::new();
    net.lose = lose_precommits_of_round_zero;
    net.start(1);
    let (block, hash) = block_of(1, &addr(1));
    for node in net.nodes.iter() {
        assert!(node.commits.is_empty());
        assert_eq!(node.smr.step, Step::Precommit);
        assert_eq!(node.smr.lock, Some(Lock { round: 0, hash: hash.clone() }));
    }
    // the node 3 goes offline; the others run into the precommit timeout and brake
    for i in [0, 1, 2] {
        net.nodes[i].timeout(TriggerType::PrecommitQC);
    }
    let offline = net.nodes.pop().unwrap();
    net.run();
    for node in net.nodes.iter() {
        assert!(node.errors.is_empty(), "{:?}", node.errors);
        // the proposer of the round 1 is the node 2: it has proposed the locked block again,
        // and the block is committed in the round 1
        assert_eq!(node.commits.len(), 1);
        let (_, commit) = &node.commits[0];
        assert_eq!(commit.content, block);
        assert_eq!(commit.proof.block_hash, hash);
        assert_eq!(commit.proof.round, 1);
        assert_eq!(commit.proof.signature.address_bitmap, vec![0b1110_0000]);
        assert_eq!(node.reasons.len(), 1);
        assert_eq!((node.state.height, node.state.round), (2, 0));
    }
    // the proposal of the round 1 carried the proof of the lock
    let proposal = net.nodes[0].wal.iter().map(|w| (w.round, w.step, w.lock.is_some())).collect::<Vec<_>>();
    assert!(proposal.contains(&(1, Step::Propose, true)));
    assert!(proposal.contains(&(1, Step::Prevote, true)));
    assert_eq!(offline.state.round, 0);
}

#[test]
fn locked_proposal_carries_the_proof_of_the_lock() {
    let mut state = fresh(2, 1);
    let hash = vec![0x11];
    state.handle_signed_proposal(signed_proposal(1, 0, 1, 0x11, None));
    let prevote_qc = qc(1, 0, VoteType::Prevote, hash.clone());
    state.votes.set_qc(prevote_qc.clone());
    state.chokes.set_qc(0, AggregatedChoke { height: 1, round: 0, signature: vec![], voters: vec![] });
    let out = state.handle_new_round(1, Some(0), Some(hash.clone()), FromWhere::ChokeQC(0));
    assert!(out.error.is_none(), "{:?}", out.error);
    assert_eq!(out.actions.len(), 3);
    assert_eq!(
        out.actions[0],
        Action::ReportViewChange { height: 1, round: 0, reason: ViewChangeReason::CheckBlockNotPass }
    );
    match &out.actions[1] {
        Action::SaveWal(wal) => {
            assert_eq!((wal.height, wal.round, wal.step), (1, 1, Step::Propose));
            assert_eq!(wal.lock.as_ref().unwrap().lock_round, 0);
        }
        other => panic!("unexpected {:?}", other),
    }
    assert_eq!(
        out.actions[2],
        Action::EnterRound { lock_round: Some(0), lock_proposal: Some(hash.clone()) }
    );
    // the leader is noted once the record is written
    assert!(!state.is_leader);
    assert!(state.leader_address.is_empty());
    let out = state.round_recorded(Some(0), Some(hash.clone()));
    assert!(out.error.is_none(), "{:?}", out.error);
    assert!(state.is_leader);
    assert_eq!(state.leader_address, addr(2));
    assert_eq!(out.actions.len(), 1);
    assert_eq!(
        out.actions[0],
        Action::SignProposal(Proposal {
            height: 1,
            round: 1,
            content: vec![0x11, 0x11],
            block_hash: hash.clone(),
            lock: Some(PoLC { lock_round: 0, lock_votes: prevote_qc }),
            proposer: addr(2),
        })
    );
    // without the block the leader cannot propose it
    let mut state = fresh(2, 1);
    state.votes.set_qc(qc(1, 0, VoteType::Prevote, hash.clone()));
    let out = state.handle_new_round(1, Some(0), Some(hash), FromWhere::PrecommitQC(u64::MAX));
    assert!(matches!(out.error, Some(ConsensusError::Other(_))));
}

// Choke-driven jump.
#[test]
fn choke_driven_jump() {
    let null_qc = qc(1, 2, VoteType::Precommit, vec![]);
    let mut node = Replica::new(0);
    node.receive(OverlordMsg::RichStatus(status(1)));
    node.state.round = 3;
    node.state.update_from_where = UpdateFrom::PrecommitQC(null_qc.clone());
    let mut t = SMRTrigger {
        trigger_type: TriggerType::WalInfo,
        source: TriggerSource::State,
        hash: vec![],
        lock_round: None,
        round: 3,
        height: 1,
        wal_info: None,
    };
    t.wal_info = Some(SMRBase { height: 1, round: 3, step: Step::Precommit, polc: None });
    node.trigger(t);
    node.outbox.clear();
    let choke = |i: u8| SignedChoke {
        signature: sign(&addr(i), &[1, 3]),
        choke: Choke { height: 1, round: 3, from: UpdateFrom::PrecommitQC(null_qc.clone()) },
        address: addr(i),
    };
    node.receive(OverlordMsg::SignedChoke(choke(1)));
    node.receive(OverlordMsg::SignedChoke(choke(2)));
    assert_eq!(node.state.round, 3);
    assert_eq!(node.state.chokes.get_qc(3), None);
    node.receive(OverlordMsg::SignedChoke(choke(3)));
    assert!(node.errors.is_empty(), "{:?}", node.errors);
    let expected = AggregatedChoke {
        height: 1,
        round: 3,
        signature: [vec![3u8], addr(1), addr(2), addr(3)].concat(),
        voters: vec![addr(1), addr(2), addr(3)],
    };
    assert_eq!(node.state.chokes.get_qc(3), Some(expected.clone()));
    assert_eq!((node.smr.height, node.smr.round, node.smr.step), (1, 4, Step::Propose));
    assert_eq!(node.state.round, 4);
    assert_eq!(node.state.update_from_where, UpdateFrom::ChokeQC(expected.clone()));
    assert_eq!(node.reasons, vec![(1, 3, ViewChangeReason::NoProposalFromNetwork)]);

    // a replica that is late learns of the choke certificate from a choke of the round 4
    let mut late = Replica::new(2);
    late.receive(OverlordMsg::RichStatus(status(1)));
    late.state.round = 3;
    let mut t = SMRTrigger {
        trigger_type: TriggerType::WalInfo,
        source: TriggerSource::State,
        hash: vec![],
        lock_round: None,
        round: 3,
        height: 1,
        wal_info: None,
    };
    t.wal_info = Some(SMRBase { height: 1, round: 3, step: Step::Propose, polc: None });
    late.trigger(t);
    late.receive(OverlordMsg::SignedChoke(SignedChoke {
        signature: vec![],
        choke: Choke { height: 1, round: 4, from: UpdateFrom::ChokeQC(expected.clone()) },
        address: addr(0),
    }));
    assert!(late.errors.is_empty(), "{:?}", late.errors);
    assert_eq!((late.smr.round, late.state.round), (4, 4));
    assert_eq!(late.state.update_from_where, UpdateFrom::ChokeQC(expected));
    assert_eq!(late.reasons, vec![(1, 3, ViewChangeReason::NoProposalFromNetwork)]);
}

// WAL recovery in the precommit step.
#[test]
fn wal_recovery_in_precommit_step() {
    let hash = vec![0x11];
    let block = vec![0xb0, 0xb1];
    let prevote_qc = qc(1, 0, VoteType::Prevote, hash.clone());
    let record = WalInfo {
        height: 1,
        round: 0,
        step: Step::Precommit,
        lock: Some(WalLock { lock_round: 0, lock_votes: prevote_qc.clone(), content: block.clone() }),
        from: UpdateFrom::PrevoteQC(prevote_qc.clone()),
    };
    // the record survives the write-ahead log
    let restored = WalInfo::decode(&record.encode()).unwrap();
    assert_eq!(restored, record);
    let mut node = Replica::new(0);
    let out = node.state.start_with_wal(Some(restored));
    assert!(out.error.is_none());
    assert_eq!(out.actions.len(), 1);
    node.perform(out);
    assert_eq!((node.state.height, node.state.round), (1, 0));
    assert_eq!(node.state.leader_address, addr(1));
    assert_eq!(node.state.update_from_where, UpdateFrom::PrevoteQC(prevote_qc.clone()));
    assert_eq!(node.state.votes.get_qc_by_id(1, 0, VoteType::Prevote).unwrap(), prevote_qc);
    assert_eq!(node.state.hash_with_block.get(&hash), Some(&block));
    assert_eq!((node.smr.height, node.smr.round, node.smr.step), (1, 0, Step::Precommit));
    assert_eq!(node.smr.lock, Some(Lock { round: 0, hash: hash.clone() }));
    // when the prevote certificate comes again, the replica precommits the block again
    assert!(node.outbox.is_empty());
    node.trigger(SMRTrigger {
        trigger_type: TriggerType::PrevoteQC,
        source: TriggerSource::State,
        hash: hash.clone(),
        lock_round: None,
        round: 0,
        height: 1,
        wal_info: None,
    });
    assert!(node.errors.is_empty(), "{:?}", node.errors);
    assert_eq!(node.smr.step, Step::Precommit);
    assert_eq!(node.wal.last().map(|w| (w.step, w.lock.is_some())), Some((Step::Precommit, true)));
    let vote = Vote { height: 1, round: 0, vote_type: VoteType::Precommit, block_hash: hash.clone() };
    assert_eq!(
        node.outbox,
        vec![(
            Some(addr(1)),
            OverlordMsg::SignedVote(SignedVote {
                signature: sign(&addr(0), &vote.encode()),
                vote,
                voter: addr(0),
            })
        )]
    );
    // the precommit certificate then commits the block
    node.trigger(SMRTrigger {
        trigger_type: TriggerType::PrecommitQC,
        source: TriggerSource::State,
        hash: hash.clone(),
        lock_round: None,
        round: 0,
        height: 1,
        wal_info: None,
    });
    assert_eq!(node.smr.step, Step::Commit);
    // the state lacks the precommit certificate itself: it was not told of it
    assert!(matches!(node.errors[..], [ConsensusError::StorageErr(_)]));
}

#[test]
fn start_without_record() {
    let mut state = State::new(addr(0), 0, INTERVAL, authority());
    let out = state.start_with_wal(None);
    assert!(out.actions.is_empty() && out.error.is_none());
    let mut state = State::new(addr(0), 9, INTERVAL, authority());
    let out = state.start_with_wal(None);
    assert_eq!(
        out.actions,
        vec![Action::Trigger(SMRTrigger {
            trigger_type: TriggerType::WalInfo,
            source: TriggerSource::State,
            hash: vec![],
            lock_round: None,
            round: 0,
            height: 9,
            wal_info: Some(SMRBase { height: 9, round: 0, step: Step::Propose, polc: None }),
        })]
    );
    assert_eq!(state.wal_lost().actions, out.actions);
    let mut outsider = State::new(vec![9], 9, INTERVAL, authority());
    assert!(outsider.start_with_wal(None).actions.is_empty());
}

#[test]
fn start_from_commit_and_brake_records() {
    let hash = vec![0x11];
    let precommit_qc = qc(1, 2, VoteType::Precommit, hash.clone());
    let record = WalInfo {
        height: 1,
        round: 2,
        step: Step::Commit,
        lock: Some(WalLock { lock_round: 2, lock_votes: precommit_qc.clone(), content: vec![5] }),
        from: UpdateFrom::PrecommitQC(mock_init_qc()),
    };
    let mut state = State::new(addr(0), 0, INTERVAL, authority());
    let out = state.start_with_wal(Some(record));
    assert!(out.error.is_none());
    assert_eq!(out.actions.len(), 2);
    assert!(matches!(&out.actions[0], Action::SaveWal(w) if w.step == Step::Commit));
    match &out.actions[1] {
        Action::Commit { height, commit } => {
            assert_eq!(*height, 1);
            assert_eq!(commit.content, vec![5]);
            assert_eq!(commit.proof.round, 2);
        }
        other => panic!("unexpected {:?}", other),
    }
    let record = WalInfo {
        height: 1,
        round: 2,
        step: Step::Commit,
        lock: None,
        from: UpdateFrom::PrecommitQC(mock_init_qc()),
    };
    let mut state = State::new(addr(0), 0, INTERVAL, authority());
    let out = state.start_with_wal(Some(record));
    assert!(matches!(out.error, Some(ConsensusError::LoadWalErr(_))));
    let record = WalInfo {
        height: 1,
        round: 2,
        step: Step::Brake,
        lock: None,
        from: UpdateFrom::PrecommitQC(mock_init_qc()),
    };
    let mut state = State::new(addr(0), 0, INTERVAL, authority());
    let out = state.start_with_wal(Some(record));
    assert_eq!(out.actions.len(), 2);
    assert!(matches!(&out.actions[0], Action::SignChoke { choke, lock_round: None } if choke.round == 2));
    assert!(matches!(&out.actions[1], Action::Trigger(t) if t.trigger_type == TriggerType::WalInfo));
}

#[test]
fn choke_is_recorded_before_it_is_sent() {
    let mut state = fresh(0, 1);
    let out = state.choke_signed(vec![4], None);
    assert!(out.error.is_none());
    assert_eq!(out.actions.len(), 2);
    assert!(matches!(&out.actions[0], Action::SaveWal(w) if w.step == Step::Brake));
    let expected = SignedChoke {
        signature: vec![4],
        choke: Choke { height: 1, round: 0, from: UpdateFrom::PrecommitQC(mock_init_qc()) },
        address: addr(0),
    };
    assert_eq!(out.actions[1], Action::Broadcast(OverlordMsg::SignedChoke(expected.clone())));
    assert_eq!(state.chokes.chokes, vec![expected]);
}

#[test]
fn own_choke_takes_the_place_of_the_one_held() {
    let mut state = fresh(0, 1);
    state.choke_signed(vec![4], None);
    let out = state.choke_signed(vec![5], None);
    assert!(out.error.is_none());
    let expected = SignedChoke {
        signature: vec![5],
        choke: Choke { height: 1, round: 0, from: UpdateFrom::PrecommitQC(mock_init_qc()) },
        address: addr(0),
    };
    assert_eq!(state.chokes.chokes, vec![expected.clone()]);
    assert_eq!(out.actions[1], Action::Broadcast(OverlordMsg::SignedChoke(expected)));
}

#[test]
fn what_is_checked_of_a_message() {
    let state = fresh(0, 1);
    let vote = signed_vote(1, 0, VoteType::Prevote, vec![1], 2);
    assert_eq!(
        state.checks_for(&OverlordMsg::SignedVote(vote.clone())).unwrap(),
        vec![Check::Signature {
            signature: vote.signature.clone(),
            payload: Signed::Vote(vote.vote.clone()),
            signer: addr(2),
        }]
    );
    let sp = signed_proposal(1, 0, 1, 0x11, None);
    assert_eq!(
        state.checks_for(&OverlordMsg::SignedProposal(sp.clone())).unwrap(),
        vec![Check::Signature {
            signature: sp.signature.clone(),
            payload: Signed::Proposal(sp.proposal.clone()),
            signer: addr(1),
        }]
    );
    let choke = SignedChoke {
        signature: vec![4],
        choke: Choke { height: 1, round: 3, from: UpdateFrom::PrecommitQC(mock_init_qc()) },
        address: addr(3),
    };
    assert_eq!(
        state.checks_for(&OverlordMsg::SignedChoke(choke)).unwrap(),
        vec![Check::Signature {
            signature: vec![4],
            payload: Signed::Choke(HashChoke { height: 1, round: 3 }),
            signer: addr(3),
        }]
    );
    assert!(state.checks_for(&OverlordMsg::RichStatus(status(2))).unwrap().is_empty());
    assert!(state.checks_for(&OverlordMsg::Stop).unwrap().is_empty());
}

#[test]
fn certificate_is_checked_against_the_voters_of_its_bitmap() {
    let state = fresh(0, 1);
    // the bitmap 1110 marks the nodes 0, 1 and 2: three of four
    let good = qc(1, 0, VoteType::Prevote, vec![0x11]);
    let expected = Check::Aggregate {
        aggregate: good.signature.clone(),
        vote: Vote { height: 1, round: 0, vote_type: VoteType::Prevote, block_hash: vec![0x11] },
        voters: vec![addr(0), addr(1), addr(2)],
    };
    assert_eq!(state.check_qc(&good).unwrap(), expected);
    let listed = state.checks_for(&OverlordMsg::AggregatedVote(good.clone())).unwrap();
    assert_eq!(listed.len(), 1);
    assert_eq!(listed[0], expected);
    // two of four are no quorum
    let mut weak = good.clone();
    weak.signature.address_bitmap = vec![0b1100_0000];
    assert!(matches!(state.check_qc(&weak), Err(ConsensusError::AggregatedSignatureErr(_))));
    assert!(matches!(
        state.checks_for(&OverlordMsg::AggregatedVote(weak.clone())),
        Err(ConsensusError::AggregatedSignatureErr(_))
    ));
    // a proposal with a lock: the signature, then the lock's certificate
    let polc = PoLC { lock_round: 0, lock_votes: good };
    let sp = signed_proposal(1, 1, 2, 0x11, Some(polc));
    let checks = state.checks_for(&OverlordMsg::SignedProposal(sp.clone())).unwrap();
    assert_eq!(checks.len(), 2);
    assert!(matches!(&checks[0], Check::Signature { signer, .. } if *signer == addr(2)));
    assert_eq!(checks[1], expected);
    // a lock that does not fit the proposal, and a lock whose certificate is no quorum
    let misfit = signed_proposal(1, 0, 1, 0x11, sp.proposal.lock.clone());
    assert!(matches!(
        state.checks_for(&OverlordMsg::SignedProposal(misfit)),
        Err(ConsensusError::ProposalErr(_))
    ));
    let weak_lock = signed_proposal(1, 1, 2, 0x11, Some(PoLC { lock_round: 0, lock_votes: weak }));
    assert!(matches!(
        state.checks_for(&OverlordMsg::SignedProposal(weak_lock)),
        Err(ConsensusError::AggregatedSignatureErr(_))
    ));
}

#[test]
fn round_is_entered_once_the_record_is_written() {
    // the leader without a lock asks for a block
    let mut state = fresh(1, 1);
    let out = state.handle_new_round(0, None, None, FromWhere::PrecommitQC(u64::MAX));
    assert!(out.error.is_none());
    assert_eq!(out.actions.len(), 2);
    assert!(matches!(&out.actions[0], Action::SaveWal(w) if (w.height, w.round, w.step) == (1, 0, Step::Propose)));
    assert_eq!(out.actions[1], Action::EnterRound { lock_round: None, lock_proposal: None });
    assert!(!state.is_leader);
    let out = state.round_recorded(None, None);
    assert!(out.error.is_none());
    assert_eq!(out.actions, vec![Action::GetBlock { height: 1 }]);
    assert!(state.is_leader);
    assert_eq!(state.leader_address, addr(1));
    // the leader with a lock round and no block of that hash cannot propose
    let out = state.round_recorded(Some(0), Some(vec![0x11]));
    assert!(matches!(out.error, Some(ConsensusError::ProposalErr(_))));
    assert!(out.actions.is_empty());
    let out = state.round_recorded(Some(0), None);
    assert!(matches!(out.error, Some(ConsensusError::ProposalErr(_))));
    // another replica waits for the proposal
    let mut state = fresh(0, 1);
    let out = state.round_recorded(None, None);
    assert!(out.error.is_none() && out.actions.is_empty());
    assert!(!state.is_leader);
    assert_eq!(state.leader_address, addr(1));
    // or takes in the one that it holds for the round
    let mut state = fresh(0, 1);
    let held = signed_proposal(1, 1, 2, 0x11, None);
    state.handle_signed_proposal(held.clone());
    assert_eq!(state.hash_with_block.get(&vec![0x11]), None);
    state.round = 1;
    let out = state.round_recorded(None, None);
    assert!(out.error.is_none());
    assert_eq!(
        out.actions,
        vec![
            Action::MarkHeightStart,
            state_trigger(TriggerType::Proposal, vec![0x11], None, 1, 1),
            Action::CheckBlock { height: 1, round: 1, hash: vec![0x11], block: vec![0x11, 0x11] },
        ]
    );
    assert_eq!(state.leader_address, addr(2));
    assert_eq!(state.hash_with_block.get(&vec![0x11]), Some(&vec![0x11, 0x11]));
    assert_eq!(state.proposals.entries, vec![held]);
    // without an authority list there is no leader
    let mut state = State::new(addr(0), 0, INTERVAL, vec![]);
    let out = state.round_recorded(None, None);
    assert!(matches!(out.error, Some(ConsensusError::Other(_))));
    assert!(out.actions.is_empty());
}

#[test]
fn height_is_entered_for_the_status_of_the_height_only() {
    let mut state = fresh(0, 3);
    state.handle_signed_vote(signed_vote(3, 0, VoteType::Prevote, vec![0x33], 2));
    state.hash_with_block.insert(vec![0x33], vec![0x33, 0x33]);
    for h in [0u64, 2, 4] {
        let out = state.height_recorded(status(h));
        assert!(out.error.is_none() && out.actions.is_empty());
        assert_eq!(state.height, 3);
        assert_eq!(state.votes.votes.len(), 1);
        assert_eq!(state.hash_with_block.get(&vec![0x33]), Some(&vec![0x33, 0x33]));
    }
    let mut start = State::new(addr(0), 0, INTERVAL, authority());
    start.hash_with_block.insert(vec![0x33], vec![0x33, 0x33]);
    let out = start.height_recorded(status(0));
    assert!(out.error.is_none() && out.actions.is_empty());
    assert_eq!(start.hash_with_block.get(&vec![0x33]), Some(&vec![0x33, 0x33]));
    // the status of the height: the blocks are forgotten and the vote is handed out
    let out = state.height_recorded(status(3));
    assert!(out.error.is_none());
    assert_eq!(out.actions.len(), 3);
    assert_eq!(out.actions[0], Action::MarkHeightStart);
    assert_eq!(
        out.actions[1],
        Action::Verify(OverlordMsg::SignedVote(signed_vote(3, 0, VoteType::Prevote, vec![0x33], 2)))
    );
    assert!(matches!(&out.actions[2], Action::Trigger(t) if matches!(t.trigger_type, TriggerType::NewHeight(_))));
    assert!(state.votes.votes.is_empty());
    assert_eq!(state.hash_with_block.get(&vec![0x33]), None);
}
