//! What a replica decides on each message and event.
//!
//! The state owns the collectors and the authority list. It does no outside work itself: each of
//! its functions takes one input, changes the state and hands back the actions that follow from it,
//! in the order in which they must be performed. Whoever drives the state performs them one after
//! the other; where an action fails, the actions behind it are dropped. The outcome of an action
//! that asks for outside work (a block, a signature, an aggregated signature, a commit) is handed
//! to the function that the action names, and the actions which that function hands back are
//! performed before the driver goes on; an error that the function hands back counts as a failure
//! of the action. The same holds of an action that follows a record (a vote to cast, a round or a
//! height to enter): it stands behind the action that writes the record, so its function is called
//! only once the record is written, and only that function lets the state keep or send what the
//! record tells of. What the state machine makes of a trigger goes to `handle_event`, event by
//! event, and an error there does not count against the action that fed the trigger.

use vstd::prelude::*;
use vstd::seq_lib::*;
use crate::{INIT_HEIGHT, INIT_ROUND};
use crate::byte_order::{bytes_eq, lex_less, sort_by_address, sorted, Addressed};
use crate::error::ConsensusError;
use crate::smr::smr_types::{
    FromWhere, SMREvent, SMRTrigger, SMRTriggerView, Step, TriggerSource, TriggerType,
};
use crate::state::collection::{
    choke_by, choke_in_round, choke_qc_at, proposal_above, proposal_of_height, proposal_off_height,
    qc_above, qc_at, qc_of_height, qc_off_height, same_slot_voter, vote_above, vote_for,
    vote_in_slot, vote_of_height, vote_off_height, ChokeCollector, ProposalCollector, VoteCollector,
};
use crate::state::quorum::{
    ascending_bytes, bitmap_weight, drawn_from, is_quorum, lemma_bitmap_carries_tally,
    lemma_quorum_has_votes, listed, tally, vote_with, voted,
};
use crate::types::{
    lemma_byte_strings_view, Address, AggregatedChoke, AggregatedSignature, AggregatedSignatureView,
    AggregatedVote, AggregatedVoteView, Choke, ChokeView, Commit, CommitView, Node, OverlordMsg,
    OverlordMsgView, PoLC, PoLCView, Proof, ProofView, Proposal, ProposalView, Signature,
    SignedChoke, SignedChokeView, SignedProposal, SignedProposalView, SignedVote, SignedVoteView,
    Status, StatusView, UpdateFrom, UpdateFromView, VerifyResp, ViewChangeReason, Vote, VoteType,
    VoteView,
};
use crate::utils::auth_manage::{
    leader_in, leader_of, lemma_weight_sum_bound, weight_sum, AuthorityManage,
};
use crate::utils::bitmap::{bit_at, bitmap_of, lemma_pack_bit_at, pack_bits};
use crate::utils::byte_map::ByteMap;
use crate::utils::seq_find::{lemma_count_is_filter_len, put};
use crate::wal::wal_type::{SMRBase, SMRBaseView, WalInfo, WalInfoView, WalLock, WalLockView};

verus! {

/// How many heights ahead of its own a replica still takes messages in.
pub const FUTURE_HEIGHT_GAP: u64 = 5;

/// How many rounds ahead a replica still takes messages in.
pub const FUTURE_ROUND_GAP: u64 = 10;

/// The certificate that stands for "no certificate yet": an empty precommit certificate of height
/// 0.
pub fn mock_init_qc() -> (r: AggregatedVote)
    ensures
        r.vote_type is Precommit,
        r.height == 0,
        r.round == 0,
        r.block_hash@.len() == 0,
        r.leader@.len() == 0,
        r.signature.signature@.len() == 0,
        r.signature.address_bitmap@.len() == 0,
{
    let aggregated_signature = AggregatedSignature {
        signature: Vec::new(),
        address_bitmap: Vec::new(),
    };
    AggregatedVote {
        signature: aggregated_signature,
        vote_type: VoteType::Precommit,
        height: 0u64,
        round: 0u64,
        block_hash: Vec::new(),
        leader: Vec::new(),
    }
}

/// What goes into a quorum certificate but the aggregated signature: the votes for one block in
/// one slot, their voters in ascending order of address, the signatures in the voters' order, and
/// the voters marked in a bitmap over the authority list.
#[derive(Debug, PartialEq, Eq)]
pub struct QcDraft {
    /// Type of the votes.
    pub vote_type: VoteType,
    /// Height of the votes.
    pub height: u64,
    /// Round of the votes.
    pub round: u64,
    /// The block that the votes are for.
    pub block_hash: crate::types::Hash,
    /// The replica that aggregates: the leader.
    pub leader: Address,
    /// The signatures of the votes, in the order of the voters.
    pub signatures: Vec<Signature>,
    /// The voters, in ascending order of address.
    pub voters: Vec<Address>,
    /// The voters as a bitmap over the authority list.
    pub address_bitmap: Vec<u8>,
}

pub struct QcDraftView {
    pub vote_type: VoteType,
    pub height: u64,
    pub round: u64,
    pub block_hash: Seq<u8>,
    pub leader: Seq<u8>,
    pub signatures: Seq<Seq<u8>>,
    pub voters: Seq<Seq<u8>>,
    pub address_bitmap: Seq<u8>,
}

impl View for QcDraft {
    type V = QcDraftView;

    open spec fn view(&self) -> QcDraftView {
        QcDraftView {
            vote_type: self.vote_type,
            height: self.height,
            round: self.round,
            block_hash: self.block_hash@,
            leader: self.leader@,
            signatures: self.signatures.deep_view(),
            voters: self.voters.deep_view(),
            address_bitmap: self.address_bitmap@,
        }
    }
}

impl QcDraftView {
    /// The certificate that the draft becomes with the aggregated signature.
    pub open spec fn to_qc(self, signature: Seq<u8>) -> AggregatedVoteView {
        AggregatedVoteView {
            signature: AggregatedSignatureView { signature, address_bitmap: self.address_bitmap },
            vote_type: self.vote_type,
            height: self.height,
            round: self.round,
            block_hash: self.block_hash,
            leader: self.leader,
        }
    }
}

impl QcDraft {
    /// The certificate: the draft with the aggregated signature of its votes.
    pub fn into_qc(self, signature: Signature) -> (r: AggregatedVote)
        ensures
            r@ == self@.to_qc(signature@),
    {
        AggregatedVote {
            signature: AggregatedSignature { signature, address_bitmap: self.address_bitmap },
            vote_type: self.vote_type,
            height: self.height,
            round: self.round,
            block_hash: self.block_hash,
            leader: self.leader,
        }
    }
}

/// What the driver of the state has to do next.
#[derive(Debug, PartialEq, Eq)]
pub enum Action {
    /// Write the record to the write-ahead log. Nothing behind it may be done unless it is
    /// written.
    SaveWal(WalInfo),
    /// Feed the trigger to the state machine.
    Trigger(SMRTrigger),
    /// Send the message to every other replica.
    Broadcast(OverlordMsg),
    /// Send the message to the replica of the address: the leader of the round.
    Transmit(Address, OverlordMsg),
    /// Have the application check the block, and hand the outcome to `handle_resp`.
    CheckBlock { height: u64, round: u64, hash: crate::types::Hash, block: Vec<u8> },
    /// Verify the signature of a message that was held back for this height, and hand the message
    /// to `handle_msg` if it holds.
    Verify(OverlordMsg),
    /// Report to the application why the round was given up.
    ReportViewChange { height: u64, round: u64, reason: ViewChangeReason },
    /// Note the time: the height's work starts now.
    MarkHeightStart,
    /// Ask the application for a block of the height, and hand it to `block_received`.
    GetBlock { height: u64 },
    /// Sign the proposal, and hand the signed proposal to `proposal_signed`.
    SignProposal(Proposal),
    /// Sign the vote, and hand the signature, with the lock round, to `vote_signed`.
    SignVote { vote: Vote, lock_round: Option<u64> },
    /// The step of the vote is on record: hand the signed vote to `vote_recorded`.
    CastVote(SignedVote),
    /// The propose step of the round is on record: hand the lock round and the locked block to
    /// `round_recorded`.
    EnterRound { lock_round: Option<u64>, lock_proposal: Option<crate::types::Hash> },
    /// The propose step of the height's first round is on record: hand the status to
    /// `height_recorded`.
    EnterHeight(Status),
    /// Sign the height and round of the choke, and hand the signature, with the lock round, to
    /// `choke_signed`.
    SignChoke { choke: Choke, lock_round: Option<u64> },
    /// Aggregate the signatures of the draft, and hand the aggregated signature to
    /// `votes_aggregated`.
    AggregateVotes(QcDraft),
    /// Aggregate the signatures of the chokes of the round, and hand the aggregated signature to
    /// `chokes_aggregated`.
    AggregateChokes { round: u64, signatures: Vec<Signature>, voters: Vec<Address> },
    /// Hand the commit to the application, and its answer, with the time that the height has
    /// taken, to `commit_done`.
    Commit { height: u64, commit: Commit },
    /// Wait for so many milliseconds.
    Sleep(u64),
}

pub enum ActionView {
    SaveWal(WalInfoView),
    Trigger(SMRTriggerView),
    Broadcast(OverlordMsgView),
    Transmit(Seq<u8>, OverlordMsgView),
    CheckBlock { height: u64, round: u64, hash: Seq<u8>, block: Seq<u8> },
    Verify(OverlordMsgView),
    ReportViewChange { height: u64, round: u64, reason: ViewChangeReason },
    MarkHeightStart,
    GetBlock { height: u64 },
    SignProposal(ProposalView),
    SignVote { vote: VoteView, lock_round: Option<u64> },
    CastVote(SignedVoteView),
    EnterRound { lock_round: Option<u64>, lock_proposal: Option<Seq<u8>> },
    EnterHeight(StatusView),
    SignChoke { choke: ChokeView, lock_round: Option<u64> },
    AggregateVotes(QcDraftView),
    AggregateChokes { round: u64, signatures: Seq<Seq<u8>>, voters: Seq<Seq<u8>> },
    Commit { height: u64, commit: CommitView },
    Sleep(u64),
}

impl View for Action {
    type V = ActionView;

    open spec fn view(&self) -> ActionView {
        match self {
            Action::SaveWal(w) => ActionView::SaveWal(w@),
            Action::Trigger(t) => ActionView::Trigger(t@),
            Action::Broadcast(m) => ActionView::Broadcast(m@),
            Action::Transmit(a, m) => ActionView::Transmit(a@, m@),
            Action::CheckBlock { height, round, hash, block } => ActionView::CheckBlock {
                height: *height,
                round: *round,
                hash: hash@,
                block: block@,
            },
            Action::Verify(m) => ActionView::Verify(m@),
            Action::ReportViewChange { height, round, reason } => ActionView::ReportViewChange {
                height: *height,
                round: *round,
                reason: *reason,
            },
            Action::MarkHeightStart => ActionView::MarkHeightStart,
            Action::GetBlock { height } => ActionView::GetBlock { height: *height },
            Action::SignProposal(p) => ActionView::SignProposal(p@),
            Action::SignVote { vote, lock_round } => ActionView::SignVote {
                vote: vote@,
                lock_round: *lock_round,
            },
            Action::CastVote(v) => ActionView::CastVote(v@),
            Action::EnterRound { lock_round, lock_proposal } => ActionView::EnterRound {
                lock_round: *lock_round,
                lock_proposal: match lock_proposal {
                    Some(h) => Some(h@),
                    None => None,
                },
            },
            Action::EnterHeight(s) => ActionView::EnterHeight(s@),
            Action::SignChoke { choke, lock_round } => ActionView::SignChoke {
                choke: choke@,
                lock_round: *lock_round,
            },
            Action::AggregateVotes(d) => ActionView::AggregateVotes(d@),
            Action::AggregateChokes { round, signatures, voters } => ActionView::AggregateChokes {
                round: *round,
                signatures: signatures.deep_view(),
                voters: voters.deep_view(),
            },
            Action::Commit { height, commit } => ActionView::Commit { height: *height,
                commit: commit@ },
            Action::Sleep(ms) => ActionView::Sleep(*ms),
        }
    }
}

/// The views of a list of actions, in the list's order.
pub open spec fn views(actions: Seq<Action>) -> Seq<ActionView> {
    Seq::new(actions.len(), |i: int| actions[i]@)
}

/// What came of one input: the actions to perform, in their order, and the error that ended the
/// work on the input, if one did. The actions stand also where there is an error: they come from
/// the work done before it.
#[derive(Debug)]
pub struct Outcome {
    /// What to do, in this order.
    pub actions: Vec<Action>,
    /// The error that ended the work.
    pub error: Option<ConsensusError>,
}

/// An outcome as a value of mathematics.
pub struct OutcomeView {
    pub actions: Seq<Action>,
    pub error: Option<ConsensusError>,
}

impl View for Outcome {
    type V = OutcomeView;

    open spec fn view(&self) -> OutcomeView {
        OutcomeView { actions: self.actions@, error: self.error }
    }
}

impl OutcomeView {
    /// The outcome has exactly these actions and no error.
    pub open spec fn done(self, actions: Seq<ActionView>) -> bool {
        self.error is None && views(self.actions) == actions
    }

    /// The outcome has no action and no error.
    pub open spec fn nothing(self) -> bool {
        self.error is None && self.actions.len() == 0
    }

    /// The outcome without its first `n` actions.
    pub open spec fn skip(self, n: int) -> OutcomeView {
        OutcomeView { actions: self.actions.skip(n), error: self.error }
    }
}

impl Outcome {
    /// Nothing to do and no error.
    pub fn empty() -> (r: Self)
        ensures
            r.nothing(),
            r.done(Seq::empty()),
    {
        let r = Outcome { actions: Vec::new(), error: None };
        assert(views(r.actions@) =~= Seq::empty());
        r
    }

    /// Nothing to do, because of the error.
    pub fn fail(error: ConsensusError) -> (r: Self)
        ensures
            r.actions@.len() == 0,
            r.error == Some(error),
    {
        Outcome { actions: Vec::new(), error: Some(error) }
    }

    /// One action and no error.
    pub fn one(action: Action) -> (r: Self)
        ensures
            r.done(seq![action@]),
    {
        let mut actions: Vec<Action> = Vec::new();
        actions.push(action);
        assert(views(actions@) =~= seq![action@]);
        Outcome { actions, error: None }
    }

    /// The outcome has exactly these actions and no error.
    pub open spec fn done(&self, actions: Seq<ActionView>) -> bool {
        self@.done(actions)
    }

    /// The outcome has no action and no error.
    pub open spec fn nothing(&self) -> bool {
        self@.nothing()
    }
}

/// The trigger by which the state tells the state machine of a proposal, a certificate or a new
/// round.
pub open spec fn state_trigger(
    trigger_type: TriggerType,
    hash: Seq<u8>,
    lock_round: Option<u64>,
    round: u64,
    height: u64,
) -> SMRTriggerView {
    SMRTriggerView {
        trigger_type,
        source: TriggerSource::State,
        hash,
        lock_round,
        round,
        height,
        wal_info: None,
    }
}

fn make_trigger(
    trigger_type: TriggerType,
    hash: Vec<u8>,
    lock_round: Option<u64>,
    round: u64,
    height: u64,
) -> (r: SMRTrigger)
    ensures
        r@ == state_trigger(trigger_type, hash@, lock_round, round, height),
{
    SMRTrigger {
        trigger_type,
        source: TriggerSource::State,
        hash,
        lock_round,
        round,
        height,
        wal_info: None,
    }
}

/// What a replica knows and has collected.
#[derive(Debug)]
pub struct State {
    /// The height that the replica works on.
    pub height: u64,
    /// The round that the replica is in.
    pub round: u64,
    /// The replica's own address.
    pub address: Address,
    /// The signed proposals of the current and of later heights and rounds.
    pub proposals: ProposalCollector,
    /// The signed votes and the quorum certificates.
    pub votes: VoteCollector,
    /// The signed chokes of the current height.
    pub chokes: ChokeCollector,
    /// The authority list.
    pub authority: AuthorityManage,
    /// The blocks of the current height, by their hash.
    pub hash_with_block: ByteMap<Vec<u8>>,
    /// Of which blocks the check has come back, and whether they passed.
    pub is_full_transaction: ByteMap<bool>,
    /// Whether the replica is the leader of the round.
    pub is_leader: bool,
    /// The address of the round's leader.
    pub leader_address: Address,
    /// The certificate that brought the replica to its round.
    pub update_from_where: UpdateFrom,
    /// The block interval, in milliseconds.
    pub block_interval: u64,
    /// Whether the replica is in the authority list of its height.
    pub consensus_power: bool,
    /// Whether the replica was told to stop.
    pub stopped: bool,
}

impl State {
    /// The parts of the state are in order, and a replica with consensus power has an authority
    /// list.
    pub open spec fn wf(&self) -> bool {
        &&& self.authority.wf()
        &&& self.votes.wf()
        &&& self.hash_with_block.wf()
        &&& self.is_full_transaction.wf()
        &&& self.consensus_power ==> self.authority.current@.len() > 0
    }

    /// A message of the height and round is of no use: it is outdated, or too far ahead. A
    /// height counts as too far ahead from the sixth height after the replica's own. At a later
    /// height a round counts as too far ahead from the eleventh round of that height; at the
    /// replica's own height no round does.
    pub open spec fn filters(&self, height: u64, round: u64) -> bool {
        ||| height < self.height
        ||| (height == self.height && round < self.round)
        ||| self.height + FUTURE_HEIGHT_GAP < height
        ||| (height > self.height && round > FUTURE_ROUND_GAP)
    }

    /// Whether a message of the height and round is to be dropped.
    pub fn filter_message(&self, height: u64, round: u64) -> (r: bool)
        ensures
            r == self.filters(height, round),
    {
        if height < self.height || (height == self.height && round < self.round) {
            true
        } else if height - self.height > FUTURE_HEIGHT_GAP {
            true
        } else {
            height > self.height && round > FUTURE_ROUND_GAP
        }
    }

    /// The address is that of a node of the current authority list or of the list before it.
    pub open spec fn known_address(&self, address: Seq<u8>) -> bool {
        self.authority.has(address) || self.authority.had(address)
    }

    /// Checks that the address is that of a node of the current or of the previous authority list.
    pub fn verify_address(&self, address: &Address) -> (res: Result<(), ConsensusError>)
        ensures
            self.known_address(address@) ==> res is Ok,
            !self.known_address(address@) ==> res matches Err(ConsensusError::InvalidAddress),
    {
        if self.authority.contains(address) || self.authority.contains_last(address) {
            Ok(())
        } else {
            Err(ConsensusError::InvalidAddress)
        }
    }

    /// The address is the proposer's of the height and round.
    pub open spec fn proposer_is(&self, height: u64, round: u64, address: Seq<u8>) -> bool {
        self.authority.current@.len() > 0 && self.authority.proposer(height, round) == address
    }

    /// Checks that the address is the proposer's of the height and round. That it is not, or that
    /// there is no authority list to tell the proposer from, is an error.
    pub fn verify_proposer(&self, height: u64, round: u64, address: &Address) -> (res: Result<
        (),
        ConsensusError,
    >)
        ensures
            self.proposer_is(height, round, address@) ==> res is Ok,
            !self.proposer_is(height, round, address@) ==> res matches Err(
                ConsensusError::ProposalErr(_),
            ),
    {
        match self.authority.get_proposer(height, round) {
            Ok(proposer) => {
                if bytes_eq(address, &proposer) {
                    Ok(())
                } else {
                    Err(ConsensusError::ProposalErr("Invalid proposer".to_string()))
                }
            },
            Err(_) => Err(ConsensusError::ProposalErr("No proposer".to_string())),
        }
    }

    /// Finds the leader of the current height and round, notes its address, and tells whether the
    /// replica itself is the leader. Without an authority list there is no leader.
    pub fn is_proposer(&mut self) -> (res: Result<bool, ConsensusError>)
        ensures
            old(self).authority.current@.len() == 0 ==> *final(self)
                == *old(self) && (res matches Err(
                ConsensusError::Other(_),
            )),
            old(self).authority.current@.len() > 0 ==> {
                &&& res == Ok::<bool, ConsensusError>(
                    old(self).proposer_is(old(self).height, old(self).round, old(self).address@),
                )
                &&& final(self).leader_address@ == old(self).authority.proposer(
                    old(self).height,
                    old(self).round,
                )
                &&& *final(self) == (State {
                    is_leader: res->Ok_0,
                    leader_address: final(self).leader_address,
                    ..*old(self)
                })
            },
    {
        let proposer = self.authority.get_proposer(self.height, self.round)?;
        if bytes_eq(&proposer, &self.address) {
            self.is_leader = true;
            self.leader_address = self.address.clone();
            return Ok(true);
        }
        self.leader_address = proposer;
        self.is_leader = false;
        Ok(false)
    }

    /// Whether the replica is the proposer of the height and round.
    pub fn next_proposer(&self, height: u64, round: u64) -> (res: Result<bool, ConsensusError>)
        ensures
            self.authority.current@.len() > 0 ==> res == Ok::<bool, ConsensusError>(
                self.proposer_is(height, round, self.address@),
            ),
            self.authority.current@.len() == 0 ==> res matches Err(ConsensusError::Other(_)),
    {
        let proposer = self.authority.get_proposer(height, round)?;
        Ok(bytes_eq(&self.address, &proposer))
    }

    /// The block of the hash may be voted on and committed: the hash is empty, or the block's
    /// check has come back and the block passed.
    pub open spec fn full_txs(&self, hash: Seq<u8>) -> bool {
        hash.len() == 0 || (self.is_full_transaction@.dom().contains(hash)
            && self.is_full_transaction@[hash])
    }

    /// Whether the block of the hash has passed its check. The empty hash passes.
    pub fn try_get_full_txs(&self, hash: &Vec<u8>) -> (r: bool)
        requires
            self.is_full_transaction.wf(),
        ensures
            r == self.full_txs(hash@),
    {
        if hash.len() == 0 {
            return true;
        }
        match self.is_full_transaction.get(hash) {
            Some(res) => *res,
            None => false,
        }
    }

    /// The record of the write-ahead log for the step: where the replica stands, with the lock.
    pub open spec fn wal_view(&self, step: Step, lock: Option<WalLockView>) -> WalInfoView {
        WalInfoView {
            height: self.height,
            round: self.round,
            step,
            lock,
            from: self.update_from_where@,
        }
    }

    /// The record to write to the write-ahead log on entering the step.
    pub fn wal_info(&self, step: Step, lock: Option<WalLock>) -> (r: WalInfo)
        ensures
            r@ == self.wal_view(
                step,
                match lock {
                    Some(l) => Some(l@),
                    None => None,
                },
            ),
    {
        WalInfo {
            height: self.height,
            round: self.round,
            step,
            from: self.update_from_where.clone(),
            lock,
        }
    }

    /// The lock to record for a lock round: the round with its prevote certificate of the current
    /// height and the block that the certificate is for.
    pub open spec fn wal_lock(&self, lock_round: u64) -> Option<WalLockView> {
        match self.votes.qc_by_id(self.height, lock_round, VoteType::Prevote) {
            Some(qc) => if self.hash_with_block@.dom().contains(qc.block_hash@) {
                Some(
                    WalLockView {
                        lock_round,
                        lock_votes: qc@,
                        content: self.hash_with_block@[qc.block_hash@]@,
                    },
                )
            } else {
                None
            },
            None => None,
        }
    }

    /// The record to write to the write-ahead log on entering the step with the lock round. With a
    /// lock round the prevote certificate of that round and its block must be at hand.
    pub fn wal_with_lock_round(&self, step: Step, lock_round: Option<u64>) -> (res: Result<
        WalInfo,
        ConsensusError,
    >)
        requires
            self.wf(),
        ensures
            match lock_round {
                None => res is Ok && res->Ok_0@ == self.wal_view(step, None),
                Some(r) => match self.wal_lock(r) {
                    Some(l) => res is Ok && res->Ok_0@ == self.wal_view(step, Some(l)),
                    None => res matches Err(ConsensusError::Other(_)),
                },
            },
    {
        let polc = match lock_round {
            Some(round) => {
                match self.votes.get_qc_by_id(self.height, round, VoteType::Prevote) {
                    Ok(qc) => {
                        match self.hash_with_block.get(&qc.block_hash) {
                            Some(block) => Some(
                                WalLock { lock_round: round, lock_votes: qc,
                                    content: block.clone() },
                            ),
                            None => {
                                return Err(ConsensusError::Other("lose whole block".to_string()));
                            },
                        }
                    },
                    Err(_) => {
                        return Err(ConsensusError::Other("no qc".to_string()));
                    },
                }
            },
            None => None,
        };
        Ok(self.wal_info(step, polc))
    }

    /// The certificate that a new round comes from, as the collectors hold it. A precommit
    /// certificate of the round `u64::MAX` stands for the start of a height, where there is none.
    pub open spec fn update_from(&self, from_where: FromWhere) -> Option<UpdateFromView> {
        match from_where {
            FromWhere::PrevoteQC(round) => match self.votes.qc_by_id(
                self.height,
                round,
                VoteType::Prevote,
            ) {
                Some(qc) => Some(UpdateFromView::PrevoteQC(qc@)),
                None => None,
            },
            FromWhere::PrecommitQC(round) => if round == u64::MAX {
                None
            } else {
                match self.votes.qc_by_id(self.height, round, VoteType::Precommit) {
                    Some(qc) => Some(UpdateFromView::PrecommitQC(qc@)),
                    None => None,
                }
            },
            FromWhere::ChokeQC(round) => match self.chokes.qc_of(round) {
                Some(qc) => Some(UpdateFromView::ChokeQC(qc@)),
                None => None,
            },
        }
    }

    /// Notes the certificate that the new round comes from. At the start of a height it notes the
    /// empty certificate. A certificate that the collectors do not hold is an error, and nothing
    /// is noted.
    pub fn set_update_from(&mut self, from_where: FromWhere) -> (res: Result<(), ConsensusError>)
        ensures
            match old(self).update_from(from_where) {
                Some(u) => {
                    &&& res is Ok
                    &&& final(self).update_from_where@ == u
                    &&& *final(self) == (State {
                        update_from_where: final(self).update_from_where,
                        ..*old(self)
                    })
                },
                None => if from_where == FromWhere::PrecommitQC(u64::MAX) {
                    &&& res is Ok
                    &&& final(self).update_from_where matches UpdateFrom::PrecommitQC(qc)
                    &&& qc.height == 0 && qc.round == 0 && qc.block_hash@.len() == 0
                    &&& *final(self) == (State {
                        update_from_where: final(self).update_from_where,
                        ..*old(self)
                    })
                } else {
                    &&& *final(self) == *old(self)
                    &&& from_where is ChokeQC ==> (res matches Err(ConsensusError::BrakeErr(_)))
                    &&& !(from_where is ChokeQC) ==> (res matches Err(ConsensusError::StorageErr(_)))
                },
            },
    {
        let update_from = match from_where {
            FromWhere::PrevoteQC(round) => {
                let qc = self.votes.get_qc_by_id(self.height, round, VoteType::Prevote)?;
                UpdateFrom::PrevoteQC(qc)
            },
            FromWhere::PrecommitQC(round) => {
                let qc = if round == u64::MAX {
                    mock_init_qc()
                } else {
                    self.votes.get_qc_by_id(self.height, round, VoteType::Precommit)?
                };
                UpdateFrom::PrecommitQC(qc)
            },
            FromWhere::ChokeQC(round) => {
                match self.chokes.get_qc(round) {
                    Some(qc) => UpdateFrom::ChokeQC(qc),
                    None => {
                        return Err(ConsensusError::BrakeErr("no choke qc".to_string()));
                    },
                }
            },
        };
        self.update_from_where = update_from;
        Ok(())
    }

    /// Why the replica gives up the round. Where the certificate that starts the new round is of
    /// another round than the one given up, the certificate is the reason. Else a leader reports
    /// which votes it lacked: precommits where it holds a prevote certificate for a block,
    /// prevotes else. A replica reports the first thing that it lacks: the proposal, the outcome
    /// of the block's check, the prevote certificate, the precommit certificate.
    pub open spec fn reason_of(&self, round: u64, update_from: FromWhere) -> ViewChangeReason {
        if round != update_from.round() {
            update_from.reason(round)
        } else if self.is_leader {
            match self.votes.qc_by_id(self.height, round, VoteType::Prevote) {
                Some(qc) => if qc.block_hash@.len() > 0 {
                    ViewChangeReason::LeaderReceivedVoteBelowThreshold(VoteType::Precommit)
                } else {
                    ViewChangeReason::LeaderReceivedVoteBelowThreshold(VoteType::Prevote)
                },
                None => ViewChangeReason::LeaderReceivedVoteBelowThreshold(VoteType::Prevote),
            }
        } else {
            match self.proposals.find(self.height, round) {
                None => ViewChangeReason::NoProposalFromNetwork,
                Some(p) => if !self.is_full_transaction@.dom().contains(p.proposal.block_hash@) {
                    ViewChangeReason::CheckBlockNotPass
                } else if self.votes.qc_by_id(self.height, round, VoteType::Prevote) is None {
                    ViewChangeReason::NoPrevoteQCFromNetwork
                } else if self.votes.qc_by_id(self.height, round, VoteType::Precommit) is None {
                    ViewChangeReason::NoPrecommitQCFromNetwork
                } else {
                    ViewChangeReason::Others
                },
            }
        }
    }

    /// The reason to report for giving up the round.
    pub fn view_change_reason(&self, round: u64, update_from: &FromWhere) -> (r: ViewChangeReason)
        requires
            self.wf(),
        ensures
            r == self.reason_of(round, *update_from),
    {
        if round != update_from.get_round() {
            return update_from.to_reason(round);
        }
        let height = self.height;
        if self.is_leader {
            match self.votes.get_qc_by_id(height, round, VoteType::Prevote) {
                Ok(qc) => {
                    if qc.block_hash.len() > 0 {
                        return ViewChangeReason::LeaderReceivedVoteBelowThreshold(VoteType::Precommit);
                    }
                },
                Err(_) => {},
            }
            return ViewChangeReason::LeaderReceivedVoteBelowThreshold(VoteType::Prevote);
        }
        let proposal = match self.proposals.get(height, round) {
            Ok(p) => p,
            Err(_) => {
                return ViewChangeReason::NoProposalFromNetwork;
            },
        };
        if !self.is_full_transaction.contains_key(&proposal.proposal.block_hash) {
            return ViewChangeReason::CheckBlockNotPass;
        }
        if self.votes.get_qc_by_id(height, round, VoteType::Prevote).is_err() {
            ViewChangeReason::NoPrevoteQCFromNetwork
        } else if self.votes.get_qc_by_id(height, round, VoteType::Precommit).is_err() {
            ViewChangeReason::NoPrecommitQCFromNetwork
        } else {
            ViewChangeReason::Others
        }
    }

    /// The weight of the votes for the block hash in the current slot of the type; `None` where
    /// one of the voters is not in the current authority list.
    pub open spec fn slot_tally(&self, vote_type: VoteType, hash: Seq<u8>) -> Option<nat> {
        tally(
            self.votes.votes@,
            vote_for(self.height, self.round, vote_type, hash),
            self.authority.current@,
        )
    }

    /// The votes for the block hash in the current slot of the type weigh more than two thirds of
    /// the authority list.
    pub open spec fn has_quorum(&self, vote_type: VoteType, hash: Seq<u8>) -> bool {
        match self.slot_tally(vote_type, hash) {
            Some(w) => is_quorum(w, self.authority.current@),
            None => false,
        }
    }

    /// Counts the weight of the votes for the block hash in the current slot of the type.
    pub fn tally_for(&self, vote_type: VoteType, hash: &Vec<u8>)
        -> (res: Result<u128, ConsensusError>)
        ensures
            match self.slot_tally(vote_type, hash@) {
                Some(w) => res
                    == Ok::<u128, ConsensusError>(w as u128)
                    && w < 0x1_0000_0000_0000_0000_0000_0000,
                None => res matches Err(ConsensusError::InvalidAddress),
            },
    {
        let ghost p = vote_for(self.height, self.round, vote_type, hash@);
        let ghost nodes = self.authority.current@;
        let ghost votes = self.votes.votes@;
        let mut acc: u128 = 0;
        let mut i: usize = 0;
        proof {
            assert(votes.skip(0) =~= votes);
        }
        while i < self.votes.votes.len()
            invariant
                i <= self.votes.votes.len(),
                votes == self.votes.votes@,
                nodes == self.authority.current@,
                p == vote_for(self.height, self.round, vote_type, hash@),
                acc <= i * 0xffff_ffff,
                tally(votes, p, nodes) == match tally(votes.skip(i as int), p, nodes) {
                    Some(b) => Some(acc as nat + b),
                    None => None,
                },
            decreases self.votes.votes.len() - i,
        {
            proof {
                assert(votes.skip(i as int)[0] == votes[i as int]);
                assert(votes.skip(i as int).skip(1) =~= votes.skip(i + 1));
                assert(i * 0xffff_ffff <= 0xffff_ffff_ffff_ffff * 0xffff_ffff) by (nonlinear_arith)
                    requires
                        i <= 0xffff_ffff_ffff_ffff,
                ;
            }
            let v = &self.votes.votes[i];
            if v.vote.height == self.height && v.vote.round == self.round && v.vote.vote_type
                == vote_type && bytes_eq(&v.vote.block_hash, hash) {
                match self.authority.get_vote_weight(&v.voter) {
                    Ok(w) => {
                        acc = acc + w as u128;
                    },
                    Err(e) => {
                        return Err(e);
                    },
                }
            }
            i += 1;
        }
        proof {
            assert(i * 0xffff_ffff <= 0xffff_ffff_ffff_ffff * 0xffff_ffff) by (nonlinear_arith)
                requires
                    i <= 0xffff_ffff_ffff_ffff,
            ;
        }
        Ok(acc)
    }

    /// What the count of the votes of the current slot of the type finds from the `k`-th vote on:
    /// the block hash of the first vote whose block has a quorum, nothing where no block has one,
    /// and an error as soon as a block is met one of whose voters is not in the authority list.
    pub open spec fn count_from(&self, vote_type: VoteType, k: int) -> Result<Option<Seq<u8>>, ()>
        decreases self.votes.votes@.len() - k,
    {
        if k < 0 || k >= self.votes.votes@.len() {
            Ok(None)
        } else {
            let v = self.votes.votes@[k];
            if !vote_in_slot(self.height, self.round, vote_type)(v) {
                self.count_from(vote_type, k + 1)
            } else {
                match self.slot_tally(vote_type, v.vote.block_hash@) {
                    None => Err(()),
                    Some(w) => if is_quorum(w, self.authority.current@) {
                        Ok(Some(v.vote.block_hash@))
                    } else {
                        self.count_from(vote_type, k + 1)
                    },
                }
            }
        }
    }

    /// Looks for a block whose votes in the current slot of the type weigh more than two thirds
    /// of the authority list: the accumulated weight times three must exceed the list's weight
    /// times two.
    pub fn counting_vote(&self, vote_type: VoteType) -> (res: Result<
        Option<crate::types::Hash>,
        ConsensusError,
    >)
        requires
            self.wf(),
        ensures
            match self.count_from(vote_type, 0) {
                Ok(Some(h)) => res is Ok && res->Ok_0 is Some && res->Ok_0->Some_0@ == h,
                Ok(None) => res is Ok && res->Ok_0 is None,
                Err(_) => res matches Err(ConsensusError::InvalidAddress),
            },
            res is Ok && res->Ok_0 is Some ==> self.has_quorum(vote_type, res->Ok_0->Some_0@),
    {
        let threshold = self.authority.get_vote_weight_sum();
        let nodes = self.authority.len();
        proof {
            lemma_weight_sum_bound(self.authority.current@);
            assert(nodes * 0xffff_ffff <= 0xffff_ffff_ffff_ffff * 0xffff_ffff) by (nonlinear_arith)
                requires
                    nodes <= 0xffff_ffff_ffff_ffff,
            ;
        }
        let mut k: usize = 0;
        while k < self.votes.votes.len()
            invariant
                k <= self.votes.votes.len(),
                threshold == weight_sum(self.authority.current@),
                threshold < 0x1_0000_0000_0000_0000_0000_0000,
                self.count_from(vote_type, 0) == self.count_from(vote_type, k as int),
            decreases self.votes.votes.len() - k,
        {
            let v = &self.votes.votes[k];
            if v.vote.height == self.height && v.vote.round == self.round && v.vote.vote_type
                == vote_type {
                let acc = self.tally_for(vote_type, &v.vote.block_hash)?;
                if acc * 3 > threshold * 2 {
                    return Ok(Some(v.vote.block_hash.clone()));
                }
            }
            k += 1;
        }
        Ok(None)
    }

    /// Whether the address has cast a vote for the block hash in the current slot of the type.
    fn has_vote_of(&self, vote_type: VoteType, hash: &Vec<u8>, address: &Address) -> (r: bool)
        ensures
            r == voted(
                self.votes.votes@,
                vote_for(self.height, self.round, vote_type, hash@),
                address@,
            ),
    {
        let ghost p = vote_for(self.height, self.round, vote_type, hash@);
        let mut i: usize = 0;
        while i < self.votes.votes.len()
            invariant
                i <= self.votes.votes.len(),
                p == vote_for(self.height, self.round, vote_type, hash@),
                forall|j: int|
                    0 <= j < i ==> !(p(#[trigger] self.votes.votes@[j])
                        && self.votes.votes@[j].voter@
                        == address@),
            decreases self.votes.votes.len() - i,
        {
            let v = &self.votes.votes[i];
            if v.vote.height == self.height && v.vote.round == self.round && v.vote.vote_type
                == vote_type && bytes_eq(&v.vote.block_hash, hash) && bytes_eq(&v.voter, address) {
                return true;
            }
            i += 1;
        }
        false
    }

    /// Which nodes of the authority list have voted for the block hash in the current slot of the
    /// type: one bit for each node, in the list's order.
    pub open spec fn voter_bits(&self, vote_type: VoteType, hash: Seq<u8>) -> Seq<bool> {
        Seq::new(
            self.authority.current@.len(),
            |i: int|
                voted(
                    self.votes.votes@,
                    vote_for(self.height, self.round, vote_type, hash),
                    self.authority.current@[i].address@,
                ),
        )
    }

    /// The draft is that of a certificate for the block hash in the current slot of the type: it
    /// names the slot, the block and the replica itself as the leader; its voters are those of
    /// the votes for the block, in ascending order of address, with their signatures in the same
    /// order; its bitmap marks the voters in the authority list. And where the addresses of the
    /// authority list are distinct and the votes for the block weigh more than two thirds of the
    /// list, so do the nodes that the bitmap marks.
    pub open spec fn draft_for(&self, d: QcDraft, vote_type: VoteType, hash: Seq<u8>) -> bool {
        &&& d.vote_type == vote_type
        &&& d.height == self.height
        &&& d.round == self.round
        &&& d.block_hash@ == hash
        &&& d.leader@ == self.address@
        &&& ascending_bytes(d@.voters)
        &&& drawn_from(
            d@.voters,
            d@.signatures,
            self.votes.votes@.filter(vote_for(self.height, self.round, vote_type, hash)),
        )
        &&& d.address_bitmap@ == pack_bits(self.voter_bits(vote_type, hash))
        &&& self.authority.distinct() && self.has_quorum(vote_type, hash) ==> is_quorum(
            bitmap_weight(d.address_bitmap@, self.authority.current@),
            self.authority.current@,
        )
    }

    /// Puts together what a quorum certificate for the block in the current slot of the type is
    /// made of: the voters of the votes for the block, sorted by address, the signatures in the
    /// voters' order, and the bitmap that marks the voters in the authority list. Where the
    /// addresses of the authority list are distinct and the votes weigh more than two thirds of
    /// the list, so do the nodes that the bitmap marks. That there is no vote for the block is an
    /// error.
    pub fn generate_qc(&self, block_hash: Vec<u8>, vote_type: VoteType) -> (res: Result<
        QcDraft,
        ConsensusError,
    >)
        requires
            self.wf(),
        ensures
            match res {
                Ok(d) => self.draft_for(d, vote_type, block_hash@),
                Err(e) => e is StorageErr && self.votes.votes@.filter(
                    vote_for(self.height, self.round, vote_type, block_hash@),
                ).len() == 0,
            },
    {
        let ghost p = vote_for(self.height, self.round, vote_type, block_hash@);
        let ghost found = self.votes.votes@.filter(p);
        let copies = self.votes.get_votes(self.height, self.round, vote_type, &block_hash)?;
        let ghost unsorted = copies@;
        let sorted = sort_by_address(copies);
        proof {
            broadcast use group_to_multiset_ensures;
            assert(sorted@.len() == unsorted.len()) by {
                assert(sorted@.to_multiset().len() == unsorted.to_multiset().len());
            }
        }
        let mut signatures: Vec<Signature> = Vec::new();
        let mut voters: Vec<Address> = Vec::new();
        let mut k: usize = 0;
        while k < sorted.len()
            invariant
                k <= sorted.len(),
                signatures.len() == k,
                voters.len() == k,
                forall|i: int| 0 <= i < k ==> (#[trigger] voters[i])@ == sorted@[i].voter@,
                forall|i: int| 0 <= i < k ==> (#[trigger] signatures[i])@ == sorted@[i].signature@,
            decreases sorted.len() - k,
        {
            signatures.push(sorted[k].signature.clone());
            voters.push(sorted[k].voter.clone());
            k += 1;
        }
        let mut bits: Vec<bool> = Vec::new();
        let mut n: usize = 0;
        while n < self.authority.current.len()
            invariant
                n <= self.authority.current.len(),
                bits.len() == n,
                p == vote_for(self.height, self.round, vote_type, block_hash@),
                forall|i: int|
                    0 <= i < n ==> #[trigger] bits[i] == voted(
                        self.votes.votes@,
                        p,
                        self.authority.current@[i].address@,
                    ),
            decreases self.authority.current.len() - n,
        {
            bits.push(self.has_vote_of(vote_type, &block_hash, &self.authority.current[n].address));
            n += 1;
        }
        let address_bitmap = bitmap_of(&bits);
        let draft = QcDraft {
            vote_type,
            height: self.height,
            round: self.round,
            block_hash,
            leader: self.address.clone(),
            signatures,
            voters,
            address_bitmap,
        };
        proof {
            broadcast use group_to_multiset_ensures;
            assert(bits@ =~= self.voter_bits(vote_type, draft.block_hash@));
            let vs = draft@.voters;
            let ss = draft@.signatures;
            lemma_byte_strings_view(draft.voters);
            lemma_byte_strings_view(draft.signatures);
            assert forall|i: int, j: int| 0 <= i < j < vs.len() implies !lex_less(
                #[trigger] vs[j],
                #[trigger] vs[i],
            ) by {
                assert(vs[i] == sorted@[i].voter@ && vs[j] == sorted@[j].voter@);
                assert(!lex_less(sorted@[j].address_key(), sorted@[i].address_key()));
            }
            assert forall|i: int| 0 <= i < vs.len() implies #[trigger] vote_with(
                found,
                vs[i],
                ss[i],
            ) by {
                assert(sorted@.contains(sorted@[i]));
                assert(unsorted.to_multiset().count(sorted@[i]) > 0);
                assert(unsorted.contains(sorted@[i]));
                let j = choose|j: int| 0 <= j < unsorted.len() && unsorted[j] == sorted@[i];
                assert(unsorted[j]@ == found[j]@);
                assert(vs[i] == sorted@[i].voter@ && ss[i] == sorted@[i].signature@);
            }
            assert forall|j: int| 0 <= j < found.len() implies #[trigger] listed(
                vs,
                ss,
                found[j].voter@,
                found[j].signature@,
            ) by {
                assert(unsorted.contains(unsorted[j]));
                assert(sorted@.to_multiset().count(unsorted[j]) > 0);
                assert(sorted@.contains(unsorted[j]));
                let i = choose|i: int| 0 <= i < sorted@.len() && sorted@[i] == unsorted[j];
                assert(unsorted[j]@ == found[j]@);
                assert(vs[i] == sorted@[i].voter@ && ss[i] == sorted@[i].signature@);
            }
            if self.authority.distinct() && self.has_quorum(vote_type, draft.block_hash@) {
                assert forall|i: int| 0 <= i < self.authority.current@.len() implies #[trigger] bit_at(
                    draft.address_bitmap@,
                    i,
                ) == voted(self.votes.votes@, p, self.authority.current@[i].address@) by {
                    lemma_pack_bit_at(bits@, i);
                }
                assert forall|i: int, j: int|
                    0 <= i < j < self.votes.votes@.len() && p(#[trigger] self.votes.votes@[i]) && p(
                        #[trigger] self.votes.votes@[j],
                    ) implies self.votes.votes@[i].voter@ != self.votes.votes@[j].voter@ by {
                    assert(!same_slot_voter(self.votes.votes@[i], self.votes.votes@[j]));
                }
                lemma_bitmap_carries_tally(
                    self.votes.votes@,
                    p,
                    self.authority.current@,
                    draft.address_bitmap@,
                );
            }
        }
        Ok(draft)
    }

    /// What follows when the check of a block has come back: a precommit certificate held for the
    /// block goes to the state machine, else a prevote certificate held for it, if it is of the
    /// current round.
    pub open spec fn resp_actions(&self, hash: Seq<u8>) -> Seq<ActionView> {
        match self.votes.qc_by_hash(self.height, hash, VoteType::Precommit) {
            Some(qc) => seq![
                ActionView::Trigger(
                    state_trigger(TriggerType::PrecommitQC, qc.block_hash@, None, qc.round,
                        qc.height),
                ),
            ],
            None => match self.votes.qc_by_hash(self.height, hash, VoteType::Prevote) {
                Some(qc) => if qc.round == self.round {
                    seq![
                        ActionView::Trigger(
                            state_trigger(
                                TriggerType::PrevoteQC,
                                qc.block_hash@,
                                None,
                                qc.round,
                                qc.height,
                            ),
                        ),
                    ]
                } else {
                    Seq::empty()
                },
                None => Seq::empty(),
            },
        }
    }

    /// Takes in the outcome of a block's check. An outcome for another height than the current is
    /// dropped. Else the outcome is noted, and a certificate that waited for it goes to the state
    /// machine. `None` says that the checker is gone, which is an error.
    pub fn handle_resp(&mut self, msg: Option<VerifyResp>) -> (out: Outcome)
        requires
            old(self).wf(),
        ensures
            final(self).wf(),
            match msg {
                None => *final(self) == *old(self) && out.actions@.len()
                    == 0 && (out.error matches Some(
                    ConsensusError::Other(_),
                )),
                Some(resp) => if resp.height != old(self).height {
                    *final(self) == *old(self) && out.nothing()
                } else {
                    &&& final(self).is_full_transaction@ == old(self).is_full_transaction@.insert(
                        resp.block_hash@,
                        resp.is_pass,
                    )
                    &&& *final(self) == (State {
                        is_full_transaction: final(self).is_full_transaction,
                        ..*old(self)
                    })
                    &&& out.done(old(self).resp_actions(resp.block_hash@))
                },
            },
    {
        let resp = match msg {
            Some(resp) => resp,
            None => {
                return Outcome::fail(ConsensusError::Other("Event sender dropped".to_string()));
            },
        };
        if resp.height != self.height {
            return Outcome::empty();
        }
        self.is_full_transaction.insert(resp.block_hash.clone(), resp.is_pass);
        match self.votes.get_qc_by_hash(self.height, &resp.block_hash, VoteType::Precommit) {
            Some(qc) => {
                return Outcome::one(
                    Action::Trigger(
                        make_trigger(TriggerType::PrecommitQC, qc.block_hash, None, qc.round,
                            qc.height),
                    ),
                );
            },
            None => {},
        }
        match self.votes.get_qc_by_hash(self.height, &resp.block_hash, VoteType::Prevote) {
            Some(qc) => {
                if qc.round == self.round {
                    return Outcome::one(
                        Action::Trigger(
                            make_trigger(
                                TriggerType::PrevoteQC,
                                qc.block_hash,
                                None,
                                qc.round,
                                qc.height,
                            ),
                        ),
                    );
                }
            },
            None => {},
        }
        Outcome::empty()
    }

    /// Whether the replica keeps a certificate that comes in. One of an earlier height is
    /// dropped. One of a later height is kept if it is no more than five heights ahead and of no
    /// later round than the tenth. Of the current height every certificate is kept but the
    /// outdated ones:
    /// a prevote certificate of an earlier round, and a precommit certificate for no block of an
    /// earlier round.
    pub open spec fn keeps_qc(&self, qc: AggregatedVoteView) -> bool {
        if qc.height < self.height {
            false
        } else if qc.height > self.height {
            qc.height <= self.height + FUTURE_HEIGHT_GAP && qc.round <= FUTURE_ROUND_GAP
        } else if qc.vote_type is Prevote {
            qc.round >= self.round
        } else {
            !(qc.block_hash.len() == 0 && qc.round < self.round)
        }
    }

    /// What taking in a certificate comes to: a certificate that the replica keeps is held for
    /// its slot from then on, in the place of the one that was held for the slot, and nothing
    /// else changes; a certificate that the replica does not keep changes nothing. A kept
    /// certificate of the current height goes to the state machine, once its block has passed the
    /// check.
    pub open spec fn after_aggregated_vote(&self, qc: AggregatedVote, end: State,
        out: OutcomeView) -> bool {
        &&& end.votes.votes == self.votes.votes
        &&& end.votes.qcs@ == if self.keeps_qc(qc@) {
            put(self.votes.qcs@, qc_at(qc.height, qc.round, qc.vote_type), qc)
        } else {
            self.votes.qcs@
        }
        &&& self.keeps_qc(qc@) ==> end.votes.qc_by_id(qc.height, qc.round, qc.vote_type) == Some(qc)
        &&& !self.keeps_qc(qc@) ==> end == *self
        &&& end == (State { votes: end.votes, ..*self })
        &&& out.done(
            if qc.height == self.height && self.keeps_qc(qc@) && self.full_txs(qc.block_hash@) {
                seq![
                    ActionView::Trigger(
                        state_trigger(
                            qc.vote_type.trigger_type(),
                            qc.block_hash@,
                            None,
                            qc.round,
                            qc.height,
                        ),
                    ),
                ]
            } else {
                Seq::empty()
            },
        )
    }

    /// Takes in a quorum certificate.
    pub fn handle_aggregated_vote(&mut self, aggregated_vote: AggregatedVote) -> (out: Outcome)
        requires
            old(self).wf(),
        ensures
            final(self).wf(),
            old(self).after_aggregated_vote(aggregated_vote, *final(self), out@),
    {
        let vote_height = aggregated_vote.get_height();
        let vote_round = aggregated_vote.get_round();
        let qc_type = if aggregated_vote.is_prevote_qc() {
            VoteType::Prevote
        } else {
            VoteType::Precommit
        };
        if vote_height < self.height {
            return Outcome::empty();
        }
        if vote_height > self.height {
            if vote_height - self.height <= FUTURE_HEIGHT_GAP && vote_round <= FUTURE_ROUND_GAP {
                self.votes.set_qc(aggregated_vote);
            }
            return Outcome::empty();
        }
        if qc_type == VoteType::Prevote && vote_round < self.round {
            return Outcome::empty();
        } else if qc_type == VoteType::Precommit && aggregated_vote.block_hash.len()
            == 0 && vote_round
            < self.round {
            return Outcome::empty();
        }
        let qc_hash = aggregated_vote.block_hash.clone();
        self.votes.set_qc(aggregated_vote);
        if !self.try_get_full_txs(&qc_hash) {
            return Outcome::empty();
        }
        Outcome::one(
            Action::Trigger(
                make_trigger(qc_type.to_trigger_type(), qc_hash, None, vote_round, vote_height),
            ),
        )
    }

    /// The trigger that takes the state machine to the round after a choke certificate's.
    pub open spec fn continue_round(&self, round: u64) -> ActionView {
        ActionView::Trigger(
            state_trigger(
                TriggerType::ContinueRound,
                Seq::empty(),
                None,
                (round + 1) as u64,
                self.height,
            ),
        )
    }

    /// What taking in a choke certificate comes to. A certificate of no more than two thirds of
    /// the authority list is refused, and so is one of the last round that there is, which no
    /// round follows. Else the certificate takes the place of the one held for its round, and the
    /// state machine is told to go on with the next round.
    pub open spec fn after_aggregated_choke(&self, qc: AggregatedChoke, end: State,
        out: OutcomeView) -> bool {
        if qc.voters@.len() * 3 <= self.authority.current@.len() * 2 || qc.round == u64::MAX {
            &&& end == *self
            &&& out.actions.len() == 0
            &&& out.error matches Some(ConsensusError::BrakeErr(_))
        } else {
            &&& end.chokes.chokes == self.chokes.chokes
            &&& end.chokes.qcs@ == put(self.chokes.qcs@, choke_qc_at(qc.round), (qc.round, qc))
            &&& end.chokes.qc_of(qc.round) == Some(qc)
            &&& end == (State { chokes: end.chokes, ..*self })
            &&& out.done(seq![self.continue_round(qc.round)])
        }
    }

    /// Takes in a choke certificate.
    pub fn handle_aggregated_choke(&mut self, aggregated_choke: AggregatedChoke) -> (out: Outcome)
        requires
            old(self).wf(),
        ensures
            final(self).wf(),
            old(self).after_aggregated_choke(aggregated_choke, *final(self), out@),
    {
        if (aggregated_choke.len() as u128) * 3 <= (self.authority.len() as u128) * 2 {
            return Outcome::fail(
                ConsensusError::BrakeErr("choke qc is not above threshold".to_string()),
            );
        }
        let round = aggregated_choke.round;
        if round == u64::MAX {
            return Outcome::fail(ConsensusError::BrakeErr("no round follows".to_string()));
        }
        self.chokes.set_qc(round, aggregated_choke);
        Outcome::one(
            Action::Trigger(
                make_trigger(TriggerType::ContinueRound, Vec::new(), None, round + 1, self.height),
            ),
        )
    }

    /// The signatures and the senders are those of the chokes, in the same order.
    pub open spec fn chokes_listed(
        chokes: Seq<SignedChoke>,
        signatures: Seq<Seq<u8>>,
        voters: Seq<Seq<u8>>,
    ) -> bool {
        &&& signatures.len() == chokes.len()
        &&& voters.len() == chokes.len()
        &&& forall|i: int|
            0 <= i < chokes.len() ==> (#[trigger] signatures[i])
                == chokes[i].signature@ && voters[i]
                == chokes[i].address@
    }

    /// Looks whether the chokes of some round have passed the threshold of two thirds of the
    /// authority list. For the highest such round, unless it lies behind the current one, it asks
    /// for the aggregate of the signatures of its chokes, which it lists in the order in which the
    /// chokes came.
    pub fn check_choke_above_threshold(&self) -> (out: Outcome)
        ensures
            self.after_choke_count(out@),
    {
        match self.chokes.max_round_above_threshold(self.authority.len()) {
            Some(round) => {
                if round < self.round {
                    return Outcome::empty();
                }
                proof {
                    lemma_count_is_filter_len(self.chokes.chokes@, choke_in_round(round));
                }
                match self.chokes.get_chokes(round) {
                    Some(signed_chokes) => {
                        let mut sigs: Vec<Signature> = Vec::new();
                        let mut voters: Vec<Address> = Vec::new();
                        let mut i: usize = 0;
                        while i < signed_chokes.len()
                            invariant
                                i <= signed_chokes.len(),
                                sigs.len() == i,
                                voters.len() == i,
                                forall|k: int|
                                    0 <= k < i ==> (#[trigger] sigs[k])@
                                        == signed_chokes[k].signature@,
                                forall|k: int|
                                    0 <= k < i ==> (#[trigger] voters[k])@
                                        == signed_chokes[k].address@,
                            decreases signed_chokes.len() - i,
                        {
                            sigs.push(signed_chokes[i].signature.clone());
                            voters.push(signed_chokes[i].address.clone());
                            i += 1;
                        }
                        proof {
                            lemma_byte_strings_view(sigs);
                            lemma_byte_strings_view(voters);
                        }
                        let mut actions: Vec<Action> = Vec::new();
                        actions.push(Action::AggregateChokes { round, signatures: sigs, voters });
                        Outcome { actions, error: None }
                    },
                    None => Outcome::empty(),
                }
            },
            None => Outcome::empty(),
        }
    }

    /// Takes in the aggregated signature of the chokes of a round: makes the choke certificate of
    /// the round, stores it in place of the one held for the round, and tells the state machine
    /// to go on with the next round. There is no round after the last that a number can name: for
    /// that round nothing is done, which is an error.
    pub fn chokes_aggregated(&mut self, round: u64, voters: Vec<Address>, signature: Signature)
        -> (out:
        Outcome)
        requires
            old(self).wf(),
        ensures
            final(self).wf(),
            round == u64::MAX ==> *final(self) == *old(self) && out.actions@.len() == 0 && (
            out.error matches Some(ConsensusError::BrakeErr(_))),
            round < u64::MAX ==> {
                &&& out.done(seq![old(self).continue_round(round)])
                &&& final(self).chokes.chokes == old(self).chokes.chokes
                &&& *final(self) == (State { chokes: final(self).chokes, ..*old(self) })
                &&& final(self).chokes.qcs@ == put(
                    old(self).chokes.qcs@,
                    choke_qc_at(round),
                    (round, AggregatedChoke { height: old(self).height, signature, round, voters }),
                )
                &&& final(self).chokes.qc_of(round) == Some(
                    AggregatedChoke { height: old(self).height, signature, round, voters },
                )
            },
    {
        if round == u64::MAX {
            return Outcome::fail(ConsensusError::BrakeErr("no round follows".to_string()));
        }
        let qc = AggregatedChoke { height: self.height, signature, round, voters };
        self.chokes.set_qc(round, qc);
        Outcome::one(
            Action::Trigger(
                make_trigger(TriggerType::ContinueRound, Vec::new(), None, round + 1, self.height),
            ),
        )
    }

    /// What taking in a signed choke comes to. A choke of another height or of an earlier round
    /// than the replica's is dropped. One of a later round is not kept: the certificate that
    /// brought its sender there is taken in instead, so that the replica catches up. One of the
    /// current round is kept, in the place of the one held of its sender for the round, and the
    /// chokes are counted.
    pub open spec fn after_signed_choke(&self, sc: SignedChoke, end: State, out: OutcomeView)
        -> bool {
        if sc.choke.height != self.height || sc.choke.round < self.round {
            end == *self && out.nothing()
        } else if sc.choke.round > self.round {
            match sc.choke.from {
                UpdateFrom::PrevoteQC(qc) => self.after_aggregated_vote(qc, end, out),
                UpdateFrom::PrecommitQC(qc) => self.after_aggregated_vote(qc, end, out),
                UpdateFrom::ChokeQC(qc) => self.after_aggregated_choke(qc, end, out),
            }
        } else {
            &&& end.chokes.qcs == self.chokes.qcs
            &&& end.chokes.chokes@ == put(
                self.chokes.chokes@,
                choke_by(sc.choke.round, sc.address@),
                sc,
            )
            &&& end.chokes.choke_of(sc.choke.round, sc.address@) == Some(sc)
            &&& end == (State { chokes: end.chokes, ..*self })
            &&& end.after_choke_count(out)
        }
    }

    /// What counting the chokes comes to: a request for the aggregate of the signatures of the
    /// chokes of the highest round that has passed the threshold, if there is such a round and it
    /// does not lie behind the current one.
    pub open spec fn after_choke_count(&self, out: OutcomeView) -> bool {
        &&& out.error is None
        &&& if out.actions.len() == 0 {
            forall|r: u64|
                self.chokes.above_threshold(r, self.authority.current@.len()) ==> r < self.round
        } else {
            &&& out.actions.len() == 1
            &&& out.actions[0] matches Action::AggregateChokes { round, signatures, voters }
            &&& self.chokes.above_threshold(round, self.authority.current@.len())
            &&& round >= self.round
            &&& forall|other: u64|
                self.chokes.above_threshold(other, self.authority.current@.len()) ==> other <= round
            &&& Self::chokes_listed(
                self.chokes.chokes@.filter(choke_in_round(round)),
                signatures.deep_view(),
                voters.deep_view(),
            )
        }
    }

    /// Takes in a signed choke.
    pub fn handle_signed_choke(&mut self, signed_choke: SignedChoke) -> (out: Outcome)
        requires
            old(self).wf(),
        ensures
            final(self).wf(),
            old(self).after_signed_choke(signed_choke, *final(self), out@),
    {
        let choke_height = signed_choke.choke.height;
        let choke_round = signed_choke.choke.round;
        if choke_height != self.height {
            return Outcome::empty();
        }
        if choke_round < self.round {
            return Outcome::empty();
        }
        if choke_round > self.round {
            return match signed_choke.choke.from {
                UpdateFrom::PrevoteQC(qc) => self.handle_aggregated_vote(qc),
                UpdateFrom::PrecommitQC(qc) => self.handle_aggregated_vote(qc),
                UpdateFrom::ChokeQC(qc) => self.handle_aggregated_choke(qc),
            };
        }
        self.chokes.insert(signed_choke);
        self.check_choke_above_threshold()
    }

    /// What counting the votes of the current slot of the type comes to: where the votes for a
    /// block reach a quorum, a request for the aggregate of their signatures, with the draft of
    /// the certificate; where a voter is met that is not in the authority list, an error.
    pub open spec fn after_count(&self, vote_type: VoteType, out: OutcomeView) -> bool {
        match self.count_from(vote_type, 0) {
            Err(_) => out.actions.len()
                == 0 && (out.error matches Some(ConsensusError::InvalidAddress)),
            Ok(None) => out.nothing(),
            Ok(Some(hash)) => {
                &&& out.error is None
                &&& out.actions.len() == 1
                &&& out.actions[0] matches Action::AggregateVotes(d)
                &&& self.draft_for(d, vote_type, hash)
            },
        }
    }

    /// Counts the votes of the current slot of the type and, where a block has a quorum, asks for
    /// the aggregate of the signatures of its votes.
    pub fn count_votes(&self, vote_type: VoteType) -> (out: Outcome)
        requires
            self.wf(),
        ensures
            self.after_count(vote_type, out@),
    {
        let block_hash = match self.counting_vote(vote_type) {
            Ok(Some(hash)) => hash,
            Ok(None) => {
                return Outcome::empty();
            },
            Err(e) => {
                return Outcome::fail(e);
            },
        };
        proof {
            lemma_quorum_has_votes(
                self.votes.votes@,
                vote_for(self.height, self.round, vote_type, block_hash@),
                self.authority.current@,
            );
        }
        match self.generate_qc(block_hash, vote_type) {
            Ok(draft) => {
                let mut actions: Vec<Action> = Vec::new();
                actions.push(Action::AggregateVotes(draft));
                Outcome { actions, error: None }
            },
            Err(e) => Outcome::fail(e),
        }
    }

    /// What taking in a signed vote comes to. A vote that is outdated or too far ahead is
    /// dropped. A vote of an unknown voter is refused. A vote for a slot that has its certificate
    /// is dropped. So is a vote of the replica's own height whose voter is in the previous
    /// authority list only: it has no weight at this height, and is not held where it would be
    /// counted. Every other vote is kept, unless its voter has a vote in the slot. After a vote
    /// of the current height the votes of the current slot of the vote's type are counted.
    pub open spec fn after_signed_vote(&self, sv: SignedVote, end: State, out: OutcomeView)
        -> bool {
        if self.filters(sv.vote.height, sv.vote.round) {
            end == *self && out.nothing()
        } else if !self.known_address(sv.voter@) {
            end == *self && out.actions.len() == 0 && (out.error matches Some(
                ConsensusError::InvalidAddress,
            ))
        } else if self.votes.qc_by_id(sv.vote.height, sv.vote.round, sv.vote.vote_type) is Some {
            end == *self && out.nothing()
        } else if sv.vote.height == self.height && !self.authority.has(sv.voter@) {
            end == *self && out.nothing()
        } else {
            &&& end.votes.qcs == self.votes.qcs
            &&& end.votes.votes@ == if self.votes.has_voted(
                sv.vote.height,
                sv.vote.round,
                sv.vote.vote_type,
                sv.voter@,
            ) {
                self.votes.votes@
            } else {
                self.votes.votes@.push(sv)
            }
            &&& end == (State { votes: end.votes, ..*self })
            &&& if sv.vote.height > self.height {
                out.nothing()
            } else {
                end.after_count(sv.vote.vote_type, out)
            }
        }
    }

    /// Takes in a signed vote.
    pub fn handle_signed_vote(&mut self, signed_vote: SignedVote) -> (out: Outcome)
        requires
            old(self).wf(),
        ensures
            final(self).wf(),
            old(self).after_signed_vote(signed_vote, *final(self), out@),
    {
        let height = signed_vote.get_height();
        let round = signed_vote.get_round();
        let vote_type = if signed_vote.is_prevote() {
            VoteType::Prevote
        } else {
            VoteType::Precommit
        };
        if self.filter_message(height, round) {
            return Outcome::empty();
        }
        match self.verify_address(&signed_vote.voter) {
            Ok(_) => {},
            Err(e) => {
                return Outcome::fail(e);
            },
        }
        if self.votes.get_qc_by_id(height, round, vote_type).is_ok() {
            return Outcome::empty();
        }
        if height == self.height && !self.authority.contains(&signed_vote.voter) {
            return Outcome::empty();
        }
        self.votes.insert_vote(signed_vote);
        if height > self.height {
            return Outcome::empty();
        }
        self.count_votes(vote_type)
    }

    /// The actions that make a certificate known: it is sent to every other replica, and it goes
    /// to the state machine once its block has passed the check.
    pub open spec fn publish_qc(&self, qc: AggregatedVoteView) -> Seq<ActionView> {
        if self.full_txs(qc.block_hash) {
            seq![
                ActionView::Broadcast(OverlordMsgView::AggregatedVote(qc)),
                ActionView::Trigger(
                    state_trigger(qc.vote_type.trigger_type(), qc.block_hash, None, qc.round,
                        qc.height),
                ),
            ]
        } else {
            seq![ActionView::Broadcast(OverlordMsgView::AggregatedVote(qc))]
        }
    }

    /// Takes in the aggregate of the signatures of the votes for a block in the current slot of
    /// the type, and makes the quorum certificate. The votes are counted once more: where they
    /// do not reach a quorum, or one of the voters is not in the authority list, there is no
    /// certificate, which is an error. Else the certificate is held for the slot from then on,
    /// sent to every other replica, and handed to the state machine once its block has passed the
    /// check. With an authority list of distinct addresses the nodes that the certificate's
    /// bitmap marks weigh more than two thirds of the list.
    pub fn votes_aggregated(
        &mut self,
        block_hash: Vec<u8>,
        vote_type: VoteType,
        signature: Signature,
    ) -> (out: Outcome)
        requires
            old(self).wf(),
        ensures
            final(self).wf(),
            !old(self).has_quorum(vote_type, block_hash@) ==> {
                &&& *final(self) == *old(self)
                &&& out.actions@.len() == 0
                &&& old(self).slot_tally(vote_type,
                    block_hash@) is None ==> (out.error matches Some(
                    ConsensusError::InvalidAddress,
                ))
                &&& old(self).slot_tally(vote_type,
                    block_hash@) is Some ==> (out.error matches Some(
                    ConsensusError::CorrectnessErr(_),
                ))
            },
            old(self).has_quorum(vote_type, block_hash@) ==> {
                &&& final(self).votes.votes == old(self).votes.votes
                &&& *final(self) == (State { votes: final(self).votes, ..*old(self) })
                &&& out.actions@.len() > 0
                &&& out.actions@[0] matches Action::Broadcast(OverlordMsg::AggregatedVote(qc))
                &&& exists|d: QcDraft| old(self).draft_for(d, vote_type, block_hash@) && qc@
                    == d@.to_qc(signature@)
                &&& old(self).authority.distinct() ==> is_quorum(
                    bitmap_weight(qc.signature.address_bitmap@, old(self).authority.current@),
                    old(self).authority.current@,
                )
                &&& out@.done(old(self).publish_qc(qc@))
                &&& final(self).votes.qc_by_id(old(self).height, old(self).round, vote_type)
                    matches Some(held)
                &&& held@ == qc@
                &&& final(self).votes.qcs@ == put(
                    old(self).votes.qcs@,
                    qc_at(old(self).height, old(self).round, vote_type),
                    held,
                )
            },
    {
        let weight = match self.tally_for(vote_type, &block_hash) {
            Ok(w) => w,
            Err(e) => {
                return Outcome::fail(e);
            },
        };
        let threshold = self.authority.get_vote_weight_sum();
        let nodes = self.authority.len();
        proof {
            lemma_weight_sum_bound(self.authority.current@);
            assert(nodes * 0xffff_ffff <= 0xffff_ffff_ffff_ffff * 0xffff_ffff) by (nonlinear_arith)
                requires
                    nodes <= 0xffff_ffff_ffff_ffff,
            ;
        }
        if weight * 3 <= threshold * 2 {
            return Outcome::fail(ConsensusError::CorrectnessErr("votes below threshold".to_string()));
        }
        proof {
            lemma_quorum_has_votes(
                self.votes.votes@,
                vote_for(self.height, self.round, vote_type, block_hash@),
                self.authority.current@,
            );
        }
        let draft = match self.generate_qc(block_hash, vote_type) {
            Ok(draft) => draft,
            Err(e) => {
                return Outcome::fail(e);
            },
        };
        let ghost d = draft;
        let qc = draft.into_qc(signature);
        let copy = qc.clone();
        let full = self.try_get_full_txs(&qc.block_hash);
        let trigger = make_trigger(
            vote_type.to_trigger_type(),
            qc.block_hash.clone(),
            None,
            qc.round,
            qc.height,
        );
        self.votes.set_qc(qc);
        let mut actions: Vec<Action> = Vec::new();
        actions.push(Action::Broadcast(OverlordMsg::AggregatedVote(copy)));
        if full {
            actions.push(Action::Trigger(trigger));
        }
        proof {
            assert(views(actions@) =~= old(self).publish_qc(copy@));
            assert(old(self).draft_for(d, vote_type, block_hash@) && copy@ == d@.to_qc(signature@));
        }
        Outcome { actions, error: None }
    }

    /// What follows a vote of the replica's own. A replica that is not the leader looks for the
    /// certificate of the current slot of the type and hands it to the state machine, once the
    /// certificate's block has passed the check. The leader counts the votes of the slot.
    pub open spec fn after_vote_process(&self, vote_type: VoteType, out: OutcomeView) -> bool {
        if !self.is_leader {
            match self.votes.qc_by_id(self.height, self.round, vote_type) {
                Some(qc) => out.done(
                    if self.full_txs(qc.block_hash@) {
                        seq![
                            ActionView::Trigger(
                                state_trigger(
                                    qc.vote_type.trigger_type(),
                                    qc.block_hash@,
                                    None,
                                    self.round,
                                    self.height,
                                ),
                            ),
                        ]
                    } else {
                        Seq::empty()
                    },
                ),
                None => out.nothing(),
            }
        } else {
            self.after_count(vote_type, out)
        }
    }

    /// Looks what has been collected for the current slot of the type, after a vote of the
    /// replica's own.
    pub fn vote_process(&self, vote_type: VoteType) -> (out: Outcome)
        requires
            self.wf(),
        ensures
            self.after_vote_process(vote_type, out@),
    {
        if !self.is_leader {
            match self.votes.get_qc_by_id(self.height, self.round, vote_type) {
                Ok(qc) => {
                    if !self.try_get_full_txs(&qc.block_hash) {
                        return Outcome::empty();
                    }
                    Outcome::one(
                        Action::Trigger(
                            make_trigger(
                                qc.vote_type.to_trigger_type(),
                                qc.block_hash,
                                None,
                                self.round,
                                self.height,
                            ),
                        ),
                    )
                },
                Err(_) => Outcome::empty(),
            }
        } else {
            self.count_votes(vote_type)
        }
    }

    /// The vote that the replica casts in its current slot of the type for the block hash.
    pub open spec fn own_vote(&self, hash: Seq<u8>, vote_type: VoteType) -> VoteView {
        VoteView { height: self.height, round: self.round, vote_type, block_hash: hash }
    }

    /// Takes in the state machine's call to vote: asks for the signature of the vote for the block
    /// hash in the current slot of the type.
    pub fn handle_vote_event(&self, hash: Vec<u8>, vote_type: VoteType, lock_round: Option<u64>)
        -> (out:
        Outcome)
        ensures
            out.done(
                seq![ActionView::SignVote { vote: self.own_vote(hash@, vote_type), lock_round }],
            ),
    {
        let vote = Vote { height: self.height, round: self.round, vote_type, block_hash: hash };
        Outcome::one(Action::SignVote { vote, lock_round })
    }

    /// The record to write on entering the step with the lock round; `None` where the lock round's
    /// certificate or its block is missing.
    pub open spec fn wal_for(&self, step: Step, lock_round: Option<u64>) -> Option<WalInfoView> {
        match lock_round {
            None => Some(self.wal_view(step, None)),
            Some(r) => match self.wal_lock(r) {
                Some(l) => Some(self.wal_view(step, Some(l))),
                None => None,
            },
        }
    }

    /// What the signature of the replica's own vote comes to. Where the record of the step cannot
    /// be made, nothing is done, which is an error. Else the record is to be written and, once it
    /// is, the signed vote is to be cast. The state itself is not touched.
    pub open spec fn after_vote_signed(
        &self,
        sv: SignedVoteView,
        lock_round: Option<u64>,
        out: OutcomeView,
    ) -> bool {
        match self.wal_for(sv.vote.vote_type.step(), lock_round) {
            None => out.actions.len() == 0 && (out.error matches Some(ConsensusError::Other(_))),
            Some(wal) => out.done(seq![ActionView::SaveWal(wal), ActionView::CastVote(sv)]),
        }
    }

    /// Takes in the signature of a vote of the replica's own.
    pub fn vote_signed(&self, vote: Vote, signature: Signature, lock_round: Option<u64>) -> (out:
        Outcome)
        requires
            self.wf(),
        ensures
            self.after_vote_signed(
                SignedVoteView { signature: signature@, vote: vote@, voter: self.address@ },
                lock_round,
                out@,
            ),
    {
        let vote_type = vote.vote_type;
        let signed_vote = SignedVote { signature, vote, voter: self.address.clone() };
        let wal = match self.wal_with_lock_round(vote_type.to_step(), lock_round) {
            Ok(wal) => wal,
            Err(e) => {
                return Outcome::fail(e);
            },
        };
        let mut actions: Vec<Action> = Vec::new();
        actions.push(Action::SaveWal(wal));
        actions.push(Action::CastVote(signed_vote));
        assert(views(actions@) =~= seq![actions@[0]@, actions@[1]@]);
        Outcome { actions, error: None }
    }

    /// What casting a vote of the replica's own comes to, once the step of the vote is on record.
    /// The leader keeps the signed vote, unless it holds one of the voter for the slot and type
    /// already. Every other replica sends the signed vote to the leader. Then the replica looks
    /// what it has collected for its current slot of the vote's type.
    pub open spec fn after_vote_recorded(&self, sv: SignedVoteView, end: State, out: OutcomeView)
        -> bool {
        if self.is_leader {
            &&& end.votes.qcs == self.votes.qcs
            &&& if self.votes.has_voted(
                sv.vote.height,
                sv.vote.round,
                sv.vote.vote_type,
                sv.voter,
            ) {
                end.votes.votes@ == self.votes.votes@
            } else {
                end.votes.votes@.len() > 0 && end.votes.votes@.drop_last() == self.votes.votes@
                    && end.votes.votes@.last()@ == sv
            }
            &&& end == (State { votes: end.votes, ..*self })
            &&& end.after_vote_process(sv.vote.vote_type, out)
        } else {
            &&& end == *self
            &&& out.actions.len() >= 1
            &&& out.actions[0]@ == ActionView::Transmit(
                self.leader_address@,
                OverlordMsgView::SignedVote(sv),
            )
            &&& self.after_vote_process(sv.vote.vote_type, out.skip(1))
        }
    }

    /// Casts a vote of the replica's own. The driver hands the signed vote over when the record
    /// that `vote_signed` asked for is written, and not before.
    pub fn vote_recorded(&mut self, signed_vote: SignedVote) -> (out: Outcome)
        requires
            old(self).wf(),
        ensures
            final(self).wf(),
            old(self).after_vote_recorded(signed_vote@, *final(self), out@),
    {
        let vote_type = signed_vote.vote.vote_type;
        let mut actions: Vec<Action> = Vec::new();
        if self.is_leader {
            self.votes.insert_vote(signed_vote);
            proof {
                if self.votes.votes@.len() > old(self).votes.votes@.len() {
                    assert(self.votes.votes@.drop_last() =~= old(self).votes.votes@);
                }
            }
        } else {
            actions.push(Action::Transmit(self.leader_address.clone(),
                OverlordMsg::SignedVote(signed_vote)));
        }
        let ghost before = actions@;
        let mut sub = self.vote_process(vote_type);
        let ghost rest = sub@;
        actions.append(&mut sub.actions);
        proof {
            assert(actions@.skip(before.len() as int) =~= rest.actions);
            if !old(self).is_leader {
                assert(actions@[0] == before[0]);
            } else {
                assert(actions@ =~= rest.actions);
            }
        }
        Outcome { actions, error: sub.error }
    }

    /// The choke that the replica sends in its current round.
    pub open spec fn own_choke(&self) -> ChokeView {
        ChokeView { height: self.height, round: self.round, from: self.update_from_where@ }
    }

    /// Takes in the state machine's call to brake in a round: asks for the signature of the
    /// replica's choke. That the round is not the replica's own is an error.
    pub fn handle_brake(&self, round: u64, lock_round: Option<u64>) -> (out: Outcome)
        ensures
            round == self.round ==> out.done(
                seq![ActionView::SignChoke { choke: self.own_choke(), lock_round }],
            ),
            round != self.round ==> out.actions@.len() == 0 && (out.error matches Some(
                ConsensusError::CorrectnessErr(_),
            )),
    {
        if round != self.round {
            return Outcome::fail(ConsensusError::CorrectnessErr("SMR round is not state round".to_string()));
        }
        let choke = Choke {
            height: self.height,
            round: self.round,
            from: self.update_from_where.clone(),
        };
        Outcome::one(Action::SignChoke { choke, lock_round })
    }

    /// What the signature of the replica's own choke comes to. The signed choke is held for the
    /// round, in the place of the one held of the replica for the round, if one is. Where the
    /// record of the brake step cannot be made,
    /// nothing more is done, which is an error. Else the record is written, the choke is sent to
    /// every other replica, and the chokes are counted.
    pub open spec fn after_choke_signed(
        &self,
        sc: SignedChokeView,
        lock_round: Option<u64>,
        end: State,
        out: OutcomeView,
    ) -> bool {
        &&& end.chokes.qcs == self.chokes.qcs
        &&& end.chokes.choke_of(sc.choke.round, sc.address) matches Some(held)
        &&& held@ == sc
        &&& end.chokes.chokes@ == put(
            self.chokes.chokes@,
            choke_by(sc.choke.round, sc.address),
            held,
        )
        &&& end == (State { chokes: end.chokes, ..*self })
        &&& match self.wal_for(Step::Brake, lock_round) {
            None => out.actions.len() == 0 && (out.error matches Some(ConsensusError::Other(_))),
            Some(wal) => {
                &&& out.actions.len() >= 2
                &&& out.actions[0]@ == ActionView::SaveWal(wal)
                &&& out.actions[1]@ == ActionView::Broadcast(OverlordMsgView::SignedChoke(sc))
                &&& end.after_choke_count(out.skip(2))
            },
        }
    }

    /// Takes in the signature of the replica's choke of its current round.
    pub fn choke_signed(&mut self, signature: Signature, lock_round: Option<u64>) -> (out: Outcome)
        requires
            old(self).wf(),
        ensures
            final(self).wf(),
            old(self).after_choke_signed(
                SignedChokeView {
                    signature: signature@,
                    choke: old(self).own_choke(),
                    address: old(self).address@,
                },
                lock_round,
                *final(self),
                out@,
            ),
    {
        let choke = Choke {
            height: self.height,
            round: self.round,
            from: self.update_from_where.clone(),
        };
        let signed_choke = SignedChoke { signature, choke, address: self.address.clone() };
        let copy = signed_choke.clone();
        self.chokes.insert(signed_choke);
        let wal = match self.wal_with_lock_round(Step::Brake, lock_round) {
            Ok(wal) => wal,
            Err(e) => {
                return Outcome::fail(e);
            },
        };
        let mut actions: Vec<Action> = Vec::new();
        actions.push(Action::SaveWal(wal));
        actions.push(Action::Broadcast(OverlordMsg::SignedChoke(copy)));
        let ghost before = actions@;
        let mut sub = self.check_choke_above_threshold();
        let ghost rest = sub@;
        actions.append(&mut sub.actions);
        proof {
            assert(actions@.skip(2) =~= rest.actions);
            assert(actions@[0] == before[0]);
            assert(actions@[1] == before[1]);
        }
        Outcome { actions, error: sub.error }
    }

    /// The second map is the first with the block stored under the hash.
    pub open spec fn stores_block(
        before: Map<Seq<u8>, Vec<u8>>,
        after: Map<Seq<u8>, Vec<u8>>,
        hash: Seq<u8>,
        block: Seq<u8>,
    ) -> bool {
        exists|v: Vec<u8>| v@ == block && after == before.insert(hash, v)
    }

    /// What handing a proposal to the proposal collector comes to: it is kept where none is held
    /// for its height and round; where one is held, nothing changes, and a proposal for another
    /// block than the one held is reported as a second proposal.
    pub open spec fn takes_proposal(
        before: ProposalCollector,
        sp: SignedProposal,
        after: ProposalCollector,
        error: Option<ConsensusError>,
    ) -> bool {
        match before.find(sp.proposal.height, sp.proposal.round) {
            Some(e) => {
                &&& after.entries@ == before.entries@
                &&& e.proposal.block_hash@ == sp.proposal.block_hash@ ==> error is None
                &&& e.proposal.block_hash@ != sp.proposal.block_hash@ ==> error == Some(
                    ConsensusError::MultiProposal(sp.proposal.height, sp.proposal.round),
                )
            },
            None => after.entries@ == before.entries@.push(sp) && error is None,
        }
    }

    /// The lock round that a proposal carries.
    pub open spec fn lock_round_of(p: ProposalView) -> Option<u64> {
        match p.lock {
            Some(polc) => Some(polc.lock_round),
            None => None,
        }
    }

    /// What taking in a signed proposal comes to. The proposer must be the proposer of the
    /// proposal's height and round: else the proposal is refused and nothing changes. From there on
    /// the time is noted. An outdated proposal or one too far ahead is dropped. A proposal of a
    /// later height, or of a later round of the current height, is kept for later. A proposal of
    /// the current height and round is kept, its block is stored under its hash, the state machine
    /// is told of it, and the application is asked to check the block.
    pub open spec fn after_signed_proposal(&self, sp: SignedProposal, end: State,
        out: OutcomeView) -> bool {
        let p = sp.proposal;
        if !self.proposer_is(p.height, p.round, p.proposer@) {
            end == *self && out.actions.len() == 0 && (out.error matches Some(
                ConsensusError::ProposalErr(_),
            ))
        } else if self.filters(p.height, p.round) {
            end == *self && out.done(seq![ActionView::MarkHeightStart])
        } else if p.height != self.height || p.round != self.round {
            &&& end == (State { proposals: end.proposals, ..*self })
            &&& Self::takes_proposal(self.proposals, sp, end.proposals, out.error)
            &&& views(out.actions) == seq![ActionView::MarkHeightStart]
        } else {
            &&& Self::stores_block(
                self.hash_with_block@,
                end.hash_with_block@,
                p.block_hash@,
                p.content@,
            )
            &&& end == (State {
                proposals: end.proposals,
                hash_with_block: end.hash_with_block,
                ..*self
            })
            &&& Self::takes_proposal(self.proposals, sp, end.proposals, out.error)
            &&& views(out.actions) == if out.error is None {
                seq![
                    ActionView::MarkHeightStart,
                    ActionView::Trigger(
                        state_trigger(
                            TriggerType::Proposal,
                            p.block_hash@,
                            Self::lock_round_of(p@),
                            p.round,
                            p.height,
                        ),
                    ),
                    ActionView::CheckBlock {
                        height: p.height,
                        round: p.round,
                        hash: p.block_hash@,
                        block: p.content@,
                    },
                ]
            } else {
                seq![ActionView::MarkHeightStart]
            }
        }
    }

    /// Sorts out the proposals that are not to be handled now. An outdated proposal or one too far
    /// ahead is dropped. A proposal of a later height, or of a later round of the current height,
    /// is handed to the proposal collector to be kept for its time. A proposal of the current
    /// height and round is handed back.
    pub fn filter_signed_proposal(&mut self, signed_proposal: SignedProposal) -> (res: Result<
        Option<SignedProposal>,
        ConsensusError,
    >)
        ensures
            if old(self).filters(signed_proposal.proposal.height, signed_proposal.proposal.round) {
                *final(self) == *old(self) && res is Ok && res->Ok_0 is None
            } else if signed_proposal.proposal.height != old(self).height
                || signed_proposal.proposal.round != old(self).round {
                &&& *final(self) == (State { proposals: final(self).proposals, ..*old(self) })
                &&& Self::takes_proposal(
                    old(self).proposals,
                    signed_proposal,
                    final(self).proposals,
                    match res {
                        Ok(_) => None,
                        Err(e) => Some(e),
                    },
                )
                &&& res is Ok ==> res->Ok_0 is None
            } else {
                *final(self) == *old(self) && res == Ok::<Option<SignedProposal>, ConsensusError>(
                    Some(signed_proposal),
                )
            },
    {
        let height = signed_proposal.proposal.height;
        let round = signed_proposal.proposal.round;
        if self.filter_message(height, round) {
            return Ok(None);
        }
        if (height == self.height && round != self.round) || height > self.height {
            self.proposals.insert(signed_proposal)?;
            return Ok(None);
        }
        Ok(Some(signed_proposal))
    }

    /// Takes in a signed proposal. Whatever is kept of a proposal, and whatever the state machine
    /// is told of it, the proposal's proposer is the proposer of its height and round by the
    /// authority list.
    pub fn handle_signed_proposal(&mut self, signed_proposal: SignedProposal) -> (out: Outcome)
        requires
            old(self).wf(),
        ensures
            final(self).wf(),
            old(self).after_signed_proposal(signed_proposal, *final(self), out@),
            *final(self) != *old(self) || out.actions@.len() > 0 ==> old(self).authority.proposer(
                signed_proposal.proposal.height,
                signed_proposal.proposal.round,
            ) == signed_proposal.proposal.proposer@,
    {
        let proposal_height = signed_proposal.proposal.height;
        let proposal_round = signed_proposal.proposal.round;
        match self.verify_proposer(
            proposal_height,
            proposal_round,
            &signed_proposal.proposal.proposer,
        ) {
            Ok(_) => {},
            Err(e) => {
                return Outcome::fail(e);
            },
        }
        let mut actions: Vec<Action> = Vec::new();
        actions.push(Action::MarkHeightStart);
        assert(views(actions@) =~= seq![ActionView::MarkHeightStart]);
        let signed_proposal = match self.filter_signed_proposal(signed_proposal) {
            Ok(Some(signed_proposal)) => signed_proposal,
            Ok(None) => {
                return Outcome { actions, error: None };
            },
            Err(e) => {
                return Outcome { actions, error: Some(e) };
            },
        };
        let lock_round = match &signed_proposal.proposal.lock {
            Some(polc) => Some(polc.lock_round),
            None => None,
        };
        let hash = signed_proposal.proposal.block_hash.clone();
        let block = signed_proposal.proposal.content.clone();
        let stored = signed_proposal.proposal.content.clone();
        self.hash_with_block.insert(hash.clone(), stored);
        match self.proposals.insert(signed_proposal) {
            Ok(_) => {},
            Err(e) => {
                assert(views(actions@) =~= seq![ActionView::MarkHeightStart]);
                return Outcome { actions, error: Some(e) };
            },
        }
        let ghost first = actions@[0];
        actions.push(
            Action::Trigger(
                make_trigger(TriggerType::Proposal, hash.clone(), lock_round, proposal_round,
                    proposal_height),
            ),
        );
        let ghost second = actions@[1];
        actions.push(Action::CheckBlock { height: proposal_height, round: proposal_round, hash,
            block });
        assert(views(actions@) =~= seq![first@, second@, actions@[2]@]);
        Outcome { actions, error: None }
    }

    /// The state holds the certificate that the new round comes from: the one that the
    /// collectors hold for it or, at the start of a height, the empty certificate.
    pub open spec fn noted(&self, from_where: FromWhere, held: UpdateFrom) -> bool {
        match self.update_from(from_where) {
            Some(u) => held@ == u,
            None => {
                &&& from_where == FromWhere::PrecommitQC(u64::MAX)
                &&& held matches UpdateFrom::PrecommitQC(qc)
                &&& qc.height == 0 && qc.round == 0 && qc.block_hash@.len() == 0
            },
        }
    }

    /// The proposal that the replica makes in its current slot.
    pub open spec fn own_proposal(&self, block: Seq<u8>, hash: Seq<u8>, lock: Option<PoLCView>)
        -> ProposalView {
        ProposalView {
            height: self.height,
            round: self.round,
            content: block,
            block_hash: hash,
            lock,
            proposer: self.address@,
        }
    }

    /// What a new round comes to once the round and its certificate are noted. Where the record
    /// of the propose step cannot be made, nothing is done, which is an error. Else the record is
    /// to be written and, once it is, the round is to be entered.
    pub open spec fn after_round_set(
        &self,
        lock_round: Option<u64>,
        lock_proposal: Option<Seq<u8>>,
        out: OutcomeView,
    ) -> bool {
        match self.wal_for(Step::Propose, lock_round) {
            None => out.actions.len() == 0 && (out.error matches Some(ConsensusError::Other(_))),
            Some(wal) => out.done(
                seq![
                    ActionView::SaveWal(wal),
                    ActionView::EnterRound { lock_round, lock_proposal },
                ],
            ),
        }
    }

    /// What entering the round comes to, once its propose step is on record. That there is no
    /// authority list to tell the leader from is an error. Else the leader is noted. A replica
    /// that is not the leader takes in the proposal that it holds for the round, if it holds
    /// one. The leader without a lock asks the application for a block. The leader with a lock
    /// asks for the signature of a proposal for the locked block, with the lock round's prevote
    /// certificate as the proof of the lock; that the block or the certificate is missing is an
    /// error.
    pub open spec fn after_round_recorded(
        &self,
        lock_round: Option<u64>,
        lock_proposal: Option<Seq<u8>>,
        end: State,
        out: OutcomeView,
    ) -> bool {
        if self.authority.current@.len() == 0 {
            end == *self && out.actions.len() == 0 && (out.error matches Some(
                ConsensusError::Other(_),
            ))
        } else {
            let leads = self.proposer_is(self.height, self.round, self.address@);
            let led = State { is_leader: leads, leader_address: end.leader_address, ..*self };
            &&& end.leader_address@ == self.authority.proposer(self.height, self.round)
            &&& if !leads {
                match self.proposals.find(self.height, self.round) {
                    Some(held) => exists|copy: SignedProposal|
                        copy@ == held@ && #[trigger] led.after_signed_proposal(copy, end, out),
                    None => end == led && out.nothing(),
                }
            } else {
                &&& end == led
                &&& match lock_round {
                    None => out.done(seq![ActionView::GetBlock { height: self.height }]),
                    Some(round) => if lock_proposal is Some && self.hash_with_block@.dom().contains(
                        lock_proposal->Some_0,
                    ) && self.votes.qc_by_id(self.height, round, VoteType::Prevote) is Some {
                        out.done(
                            seq![
                                ActionView::SignProposal(
                                    self.own_proposal(
                                        self.hash_with_block@[lock_proposal->Some_0]@,
                                        lock_proposal->Some_0,
                                        Some(
                                            PoLCView {
                                                lock_round: round,
                                                lock_votes: self.votes.qc_by_id(
                                                    self.height,
                                                    round,
                                                    VoteType::Prevote,
                                                )->Some_0@,
                                            },
                                        ),
                                    ),
                                ),
                            ],
                        )
                    } else {
                        out.actions.len() == 0 && (out.error matches Some(
                            ConsensusError::ProposalErr(_),
                        ))
                    },
                }
            }
        }
    }

    /// What a new round comes to. From the second round of a height on, the reason for giving up
    /// the round before is reported first. The round is noted and the replica is no leader until
    /// it is found to be one. A lock round without a locked block, or a locked block without a
    /// lock round, is an error, and so is a certificate of the new round that the collectors do
    /// not hold. Else the certificate is noted and the record of the round is asked for. Nothing
    /// more is kept before the record is written.
    pub open spec fn after_new_round(
        &self,
        new_round: u64,
        lock_round: Option<u64>,
        lock_proposal: Option<Seq<u8>>,
        from_where: FromWhere,
        end: State,
        out: OutcomeView,
    ) -> bool {
        let k: int = if new_round != INIT_ROUND {
            1
        } else {
            0
        };
        let entered = State { round: new_round, is_leader: false, ..*self };
        &&& out.actions.len() >= k
        &&& new_round != INIT_ROUND ==> out.actions[0]@ == ActionView::ReportViewChange {
            height: self.height,
            round: self.round,
            reason: self.reason_of(self.round, from_where),
        }
        &&& if (lock_round is Some) != (lock_proposal is Some) {
            end == entered && out.actions.len() == k && (out.error matches Some(
                ConsensusError::ProposalErr(_),
            ))
        } else if entered.update_from(from_where) is None && from_where != FromWhere::PrecommitQC(
            u64::MAX,
        ) {
            end == entered && out.actions.len() == k && (if from_where is ChokeQC {
                out.error matches Some(ConsensusError::BrakeErr(_))
            } else {
                out.error matches Some(ConsensusError::StorageErr(_))
            })
        } else {
            &&& entered.noted(from_where, end.update_from_where)
            &&& end == (State { update_from_where: end.update_from_where, ..entered })
            &&& end.after_round_set(lock_round, lock_proposal, out.skip(k))
        }
    }

    /// Takes in the state machine's call to enter a round.
    pub fn handle_new_round(
        &mut self,
        new_round: u64,
        lock_round: Option<u64>,
        lock_proposal: Option<crate::types::Hash>,
        from_where: FromWhere,
    ) -> (out: Outcome)
        requires
            old(self).wf(),
        ensures
            final(self).wf(),
            old(self).after_new_round(
                new_round,
                lock_round,
                match lock_proposal {
                    Some(h) => Some(h@),
                    None => None,
                },
                from_where,
                *final(self),
                out@,
            ),
    {
        let mut actions: Vec<Action> = Vec::new();
        if new_round != INIT_ROUND {
            let last_round = self.round;
            let reason = self.view_change_reason(last_round, &from_where);
            actions.push(Action::ReportViewChange { height: self.height, round: last_round,
                reason });
        }
        let ghost report = actions@;
        let ghost k = report.len() as int;
        self.round = new_round;
        self.is_leader = false;
        let ghost entered = *self;
        if lock_round.is_some() != lock_proposal.is_some() {
            return Outcome {
                actions,
                error: Some(
                    ConsensusError::ProposalErr(
                        "Lock round is inconsistent with lock proposal".to_string(),
                    ),
                ),
            };
        }
        match self.set_update_from(from_where) {
            Ok(_) => {},
            Err(e) => {
                return Outcome { actions, error: Some(e) };
            },
        }
        let mut rest = self.enter_round(lock_round, lock_proposal);
        let ghost tail = rest@;
        actions.append(&mut rest.actions);
        proof {
            assert(actions@.skip(k) =~= tail.actions);
            if k == 1 {
                assert(actions@[0] == report[0]);
            }
            assert(*self == (State { update_from_where: self.update_from_where, ..entered }));
        }
        Outcome { actions, error: rest.error }
    }

    /// Asks for the record of the round that the state has noted.
    fn enter_round(&self, lock_round: Option<u64>, lock_proposal: Option<crate::types::Hash>)
        -> (out: Outcome)
        requires
            self.wf(),
        ensures
            self.after_round_set(
                lock_round,
                match lock_proposal {
                    Some(h) => Some(h@),
                    None => None,
                },
                out@,
            ),
    {
        let wal = match self.wal_with_lock_round(Step::Propose, lock_round) {
            Ok(wal) => wal,
            Err(e) => {
                return Outcome::fail(e);
            },
        };
        let mut actions: Vec<Action> = Vec::new();
        actions.push(Action::SaveWal(wal));
        actions.push(Action::EnterRound { lock_round, lock_proposal });
        assert(views(actions@) =~= seq![actions@[0]@, actions@[1]@]);
        Outcome { actions, error: None }
    }

    /// Enters the round that the state has noted. The driver hands the lock round and the locked
    /// block over when the record that `handle_new_round` asked for is written, and not before.
    pub fn round_recorded(&mut self, lock_round: Option<u64>,
        lock_proposal: Option<crate::types::Hash>) -> (out: Outcome)
        requires
            old(self).wf(),
        ensures
            final(self).wf(),
            old(self).after_round_recorded(
                lock_round,
                match lock_proposal {
                    Some(h) => Some(h@),
                    None => None,
                },
                *final(self),
                out@,
            ),
    {
        let leads = match self.is_proposer() {
            Ok(leads) => leads,
            Err(e) => {
                return Outcome::fail(e);
            },
        };
        let ghost led = *self;
        if !leads {
            return match self.proposals.get(self.height, self.round) {
                Ok(signed_proposal) => {
                    let ghost copy = signed_proposal;
                    let out = self.handle_signed_proposal(signed_proposal);
                    proof {
                        assert(led.after_signed_proposal(copy, *self, out@));
                    }
                    out
                },
                Err(_) => Outcome::empty(),
            };
        }
        match lock_round {
            None => Outcome::one(Action::GetBlock { height: self.height }),
            Some(round) => {
                let hash = match lock_proposal {
                    Some(hash) => hash,
                    None => {
                        return Outcome::fail(
                            ConsensusError::ProposalErr("no lock proposal".to_string()),
                        );
                    },
                };
                let block = match self.hash_with_block.get(&hash) {
                    Some(block) => block.clone(),
                    None => {
                        return Outcome::fail(
                            ConsensusError::ProposalErr("Lose whole block".to_string()),
                        );
                    },
                };
                let qc = match self.votes.get_qc_by_id(self.height, round, VoteType::Prevote) {
                    Ok(qc) => qc,
                    Err(_) => {
                        return Outcome::fail(
                            ConsensusError::ProposalErr("no prevote qc when propose".to_string()),
                        );
                    },
                };
                let proposal = Proposal {
                    height: self.height,
                    round: self.round,
                    content: block,
                    block_hash: hash,
                    lock: Some(PoLC { lock_round: round, lock_votes: qc }),
                    proposer: self.address.clone(),
                };
                Outcome::one(Action::SignProposal(proposal))
            },
        }
    }

    /// Takes in the block that the application has made for the replica to propose: stores it
    /// under its hash, unless a block is stored there, and asks for the signature of the
    /// proposal of the block in the current slot.
    pub fn block_received(&mut self, block: Vec<u8>, hash: Vec<u8>) -> (out: Outcome)
        requires
            old(self).wf(),
        ensures
            final(self).wf(),
            *final(self) == (State { hash_with_block: final(self).hash_with_block, ..*old(self) }),
            if old(self).hash_with_block@.dom().contains(hash@) {
                final(self).hash_with_block@ == old(self).hash_with_block@
            } else {
                Self::stores_block(
                    old(self).hash_with_block@,
                    final(self).hash_with_block@,
                    hash@,
                    block@,
                )
            },
            out.done(seq![ActionView::SignProposal(old(self).own_proposal(block@, hash@, None))]),
    {
        self.hash_with_block.insert_if_absent(hash.clone(), block.clone());
        let proposal = Proposal {
            height: self.height,
            round: self.round,
            content: block,
            block_hash: hash,
            lock: None,
            proposer: self.address.clone(),
        };
        Outcome::one(Action::SignProposal(proposal))
    }

    /// Takes in the signature of the replica's own proposal: the signed proposal is sent to every
    /// other replica, the state machine is told of the proposal, and the application is asked to
    /// check the block.
    pub fn proposal_signed(&self, proposal: Proposal, signature: Signature) -> (out: Outcome)
        ensures
            out.done(
                seq![
                    ActionView::Broadcast(
                        OverlordMsgView::SignedProposal(
                            SignedProposalView { signature: signature@, proposal: proposal@ },
                        ),
                    ),
                    ActionView::Trigger(
                        state_trigger(
                            TriggerType::Proposal,
                            proposal.block_hash@,
                            Self::lock_round_of(proposal@),
                            self.round,
                            self.height,
                        ),
                    ),
                    ActionView::CheckBlock {
                        height: self.height,
                        round: self.round,
                        hash: proposal.block_hash@,
                        block: proposal.content@,
                    },
                ],
            ),
    {
        let lock_round = match &proposal.lock {
            Some(polc) => Some(polc.lock_round),
            None => None,
        };
        let hash = proposal.block_hash.clone();
        let block = proposal.content.clone();
        let mut actions: Vec<Action> = Vec::new();
        actions.push(
            Action::Broadcast(OverlordMsg::SignedProposal(SignedProposal { signature, proposal })),
        );
        let ghost first = actions@[0];
        actions.push(
            Action::Trigger(
                make_trigger(TriggerType::Proposal, hash.clone(), lock_round, self.round,
                    self.height),
            ),
        );
        let ghost second = actions@[1];
        actions.push(Action::CheckBlock { height: self.height, round: self.round, hash, block });
        assert(views(actions@) =~= seq![first@, second@, actions@[2]@]);
        Outcome { actions, error: None }
    }

    /// What the state machine's call to commit a block comes to. The block and a precommit
    /// certificate for it must be at hand: else nothing is done, which is a storage error. The
    /// record of the commit step is written first, with the certificate and the block as the lock.
    /// Then the block goes to the application, with the proof that the certificate gives.
    pub open spec fn after_commit(&self, hash: Seq<u8>, out: OutcomeView) -> bool {
        if !self.hash_with_block@.dom().contains(hash) {
            out.actions.len() == 0 && (out.error matches Some(ConsensusError::StorageErr(_)))
        } else {
            match self.votes.qc_by_hash(self.height, hash, VoteType::Precommit) {
                None => out.actions.len() == 0 && (out.error matches Some(
                    ConsensusError::StorageErr(_),
                )),
                Some(qc) => out.done(
                    seq![
                        ActionView::SaveWal(
                            self.wal_view(
                                Step::Commit,
                                Some(
                                    WalLockView {
                                        lock_round: self.round,
                                        lock_votes: qc@,
                                        content: self.hash_with_block@[hash]@,
                                    },
                                ),
                            ),
                        ),
                        ActionView::Commit {
                            height: self.height,
                            commit: CommitView {
                                height: self.height,
                                content: self.hash_with_block@[hash]@,
                                proof: ProofView {
                                    height: self.height,
                                    round: qc.round,
                                    block_hash: hash,
                                    signature: qc.signature@,
                                },
                            },
                        },
                    ],
                ),
            }
        }
    }

    /// Takes in the state machine's call to commit the block of the hash.
    pub fn handle_commit(&self, hash: Vec<u8>) -> (out: Outcome)
        requires
            self.wf(),
        ensures
            self.after_commit(hash@, out@),
    {
        let height = self.height;
        let content = match self.hash_with_block.get(&hash) {
            Some(block) => block.clone(),
            None => {
                return Outcome::fail(ConsensusError::StorageErr("Lose whole block".to_string()));
            },
        };
        let qc = match self.votes.get_qc_by_hash(height, &hash, VoteType::Precommit) {
            Some(qc) => qc,
            None => {
                return Outcome::fail(ConsensusError::StorageErr("Lose precommit QC".to_string()));
            },
        };
        let proof = Proof {
            height,
            round: qc.round,
            block_hash: hash,
            signature: qc.signature.clone(),
        };
        let polc = WalLock { lock_round: self.round, lock_votes: qc, content: content.clone() };
        let wal = self.wal_info(Step::Commit, Some(polc));
        let commit = Commit { height, content, proof };
        let mut actions: Vec<Action> = Vec::new();
        actions.push(Action::SaveWal(wal));
        let ghost first = actions@[0];
        actions.push(Action::Commit { height, commit });
        assert(views(actions@) =~= seq![first@, actions@[1]@]);
        Outcome { actions, error: None }
    }

    /// The requests to verify the messages that were held back for a height: the proposals, then
    /// the votes, then the certificates, each in the order in which they came.
    pub open spec fn held_back(
        proposals: Seq<SignedProposal>,
        votes: Seq<SignedVote>,
        qcs: Seq<AggregatedVote>,
    ) -> Seq<ActionView> {
        Seq::new(
            proposals.len(),
            |i: int| ActionView::Verify(OverlordMsgView::SignedProposal(proposals[i]@)),
        ) + Seq::new(votes.len(),
            |i: int| ActionView::Verify(OverlordMsgView::SignedVote(votes[i]@)))
            + Seq::new(qcs.len(),
                |i: int| ActionView::Verify(OverlordMsgView::AggregatedVote(qcs[i]@)))
    }

    /// What a rich status comes to. A status of a height that is not above the current one
    /// changes nothing. Else the replica goes to the status's height and the first round, and
    /// notes whether it is in the status's authority list. If it is not, that is all. If it is,
    /// the status's authority list takes the place of the current one, which becomes the previous
    /// one, and the record of the propose step is to be written; once it is, the height is to be
    /// entered.
    pub open spec fn after_new_height(&self, status: Status, end: State, out: OutcomeView) -> bool {
        if status.height <= self.height {
            end == *self && out.nothing()
        } else {
            let power = status@.is_consensus_node(self.address@);
            let arrived = State {
                height: status.height,
                round: INIT_ROUND,
                consensus_power: power,
                ..*self
            };
            if !power {
                end == arrived && out.nothing()
            } else {
                &&& end.authority.current@ == sorted(status.authority_list@)
                &&& end.authority.last == self.authority.current
                &&& end == (State { authority: end.authority, ..arrived })
                &&& out.done(
                    seq![
                        ActionView::SaveWal(arrived.wal_view(Step::Propose, None)),
                        ActionView::EnterHeight(status@),
                    ],
                )
            }
        }
    }

    /// What entering the height comes to, once the propose step of its first round is on
    /// record. A status that is not of the replica's height changes nothing, nor does one of
    /// height zero, to which no replica goes. Else the time is noted, the status's block interval
    /// is taken over if it names one, the proposals, votes and certificates of earlier heights
    /// are dropped, the blocks and the chokes are forgotten, what was held back for the height is
    /// taken out of the collectors and sent to be verified, and the state machine is told of the
    /// new height.
    pub open spec fn after_height_recorded(&self, status: Status, end: State, out: OutcomeView)
        -> bool {
        if status.height != self.height || status.height == 0 {
            end == *self && out.nothing()
        } else {
            let till = (status.height - 1) as u64;
            &&& end.block_interval == match status.interval {
                Some(interval) => interval,
                None => self.block_interval,
            }
            &&& end.proposals.entries@ == self.proposals.entries@.filter(
                proposal_above(till),
            ).filter(proposal_off_height(status.height))
            &&& end.votes.votes@ == self.votes.votes@.filter(vote_above(till)).filter(
                vote_off_height(status.height),
            )
            &&& end.votes.qcs@ == self.votes.qcs@.filter(qc_above(till)).filter(
                qc_off_height(status.height),
            )
            &&& end.hash_with_block@ == Map::<Seq<u8>, Vec<u8>>::empty()
            &&& end.chokes.chokes@.len() == 0
            &&& end.chokes.qcs@.len() == 0
            &&& end == (State {
                block_interval: end.block_interval,
                proposals: end.proposals,
                votes: end.votes,
                hash_with_block: end.hash_with_block,
                chokes: end.chokes,
                ..*self
            })
            &&& out.done(
                seq![ActionView::MarkHeightStart] + Self::held_back(
                    self.proposals.entries@.filter(proposal_above(till)).filter(
                        proposal_of_height(status.height),
                    ),
                    self.votes.votes@.filter(vote_above(till)).filter(
                        vote_of_height(status.height),
                    ),
                    self.votes.qcs@.filter(qc_above(till)).filter(qc_of_height(status.height)),
                ) + seq![
                    ActionView::Trigger(
                        state_trigger(
                            TriggerType::NewHeight(status@.to_smr_status()),
                            Seq::empty(),
                            None,
                            INIT_ROUND,
                            status.height,
                        ),
                    ),
                ],
            )
        }
    }

    /// Takes in a rich status: the application's answer to a commit, or the latest status after
    /// the replica has caught up.
    pub fn goto_new_height(&mut self, status: Status) -> (out: Outcome)
        requires
            old(self).wf(),
        ensures
            final(self).wf(),
            old(self).after_new_height(status, *final(self), out@),
    {
        if status.height <= self.height {
            return Outcome::empty();
        }
        self.height = status.height;
        self.round = INIT_ROUND;
        self.consensus_power = status.is_consensus_node(&self.address);
        if !self.consensus_power {
            return Outcome::empty();
        }
        let ghost arrived = *self;
        let mut actions: Vec<Action> = Vec::new();
        actions.push(Action::SaveWal(self.wal_info(Step::Propose, None)));
        actions.push(Action::EnterHeight(status.clone()));
        assert(views(actions@) =~= seq![
            ActionView::SaveWal(arrived.wal_view(Step::Propose, None)),
            ActionView::EnterHeight(status@),
        ]);
        self.authority.update(status.authority_list);
        Outcome { actions, error: None }
    }

    /// Enters the height that the replica has gone to. The driver hands the status over when the
    /// record that `goto_new_height` asked for is written, and not before.
    pub fn height_recorded(&mut self, status: Status) -> (out: Outcome)
        requires
            old(self).wf(),
        ensures
            final(self).wf(),
            old(self).after_height_recorded(status, *final(self), out@),
    {
        if status.height != self.height || status.height == 0 {
            return Outcome::empty();
        }
        let new_height = status.height;
        let mut actions: Vec<Action> = Vec::new();
        actions.push(Action::MarkHeightStart);
        let ghost head = views(actions@);
        assert(head =~= seq![ActionView::MarkHeightStart]);
        let smr_status = status.to_smr_status();
        match status.interval {
            Some(interval) => {
                self.block_interval = interval;
            },
            None => {},
        }
        self.proposals.flush(new_height - 1);
        self.votes.flush(new_height - 1);
        self.hash_with_block.clear();
        self.chokes.clear();
        let proposals = match self.proposals.get_height_proposals(new_height) {
            Some(proposals) => proposals,
            None => Vec::new(),
        };
        let (votes, qcs) = match self.votes.get_height_votes(new_height) {
            Some((votes, qcs)) => (votes, qcs),
            None => (Vec::new(), Vec::new()),
        };
        let ghost held_proposals = proposals@;
        let ghost held_votes = votes@;
        let ghost held_qcs = qcs@;
        proof {
            assert(held_proposals =~= old(self).proposals.entries@.filter(
                proposal_above((new_height - 1) as u64),
            ).filter(proposal_of_height(new_height)));
            assert(held_votes =~= old(self).votes.votes@.filter(vote_above((new_height - 1) as u64)).filter(
                vote_of_height(new_height),
            ));
            assert(held_qcs =~= old(self).votes.qcs@.filter(qc_above((new_height - 1) as u64)).filter(
                qc_of_height(new_height),
            ));
        }
        let mut proposals = proposals;
        let ghost mut j: int = 0;
        while proposals.len() > 0
            invariant
                0 <= j <= held_proposals.len(),
                proposals@ == held_proposals.skip(j),
                views(actions@) == head + Seq::new(
                    j as nat,
                    |i: int| ActionView::Verify(OverlordMsgView::SignedProposal(held_proposals[i]@)),
                ),
            decreases proposals.len(),
        {
            let ghost before = views(actions@);
            let p = proposals.remove(0);
            actions.push(Action::Verify(OverlordMsg::SignedProposal(p)));
            proof {
                assert(p == held_proposals[j]);
                assert(proposals@ =~= held_proposals.skip(j + 1));
                assert(views(actions@) =~= before.push(
                    ActionView::Verify(OverlordMsgView::SignedProposal(held_proposals[j]@)),
                ));
                assert(views(actions@) =~= head + Seq::new(
                    (j + 1) as nat,
                    |i: int| ActionView::Verify(OverlordMsgView::SignedProposal(held_proposals[i]@)),
                ));
                j = j + 1;
            }
        }
        let ghost with_proposals = views(actions@);
        let mut votes = votes;
        let ghost mut j: int = 0;
        proof {
            assert(with_proposals =~= with_proposals + Seq::new(
                0nat,
                |i: int| ActionView::Verify(OverlordMsgView::SignedVote(held_votes[i]@)),
            ));
        }
        while votes.len() > 0
            invariant
                0 <= j <= held_votes.len(),
                votes@ == held_votes.skip(j),
                views(actions@) == with_proposals + Seq::new(
                    j as nat,
                    |i: int| ActionView::Verify(OverlordMsgView::SignedVote(held_votes[i]@)),
                ),
            decreases votes.len(),
        {
            let ghost before = views(actions@);
            let v = votes.remove(0);
            actions.push(Action::Verify(OverlordMsg::SignedVote(v)));
            proof {
                assert(v == held_votes[j]);
                assert(votes@ =~= held_votes.skip(j + 1));
                assert(views(actions@) =~= before.push(
                    ActionView::Verify(OverlordMsgView::SignedVote(held_votes[j]@)),
                ));
                assert(views(actions@) =~= with_proposals + Seq::new(
                    (j + 1) as nat,
                    |i: int| ActionView::Verify(OverlordMsgView::SignedVote(held_votes[i]@)),
                ));
                j = j + 1;
            }
        }
        let ghost with_votes = views(actions@);
        let mut qcs = qcs;
        let ghost mut j: int = 0;
        proof {
            assert(with_votes =~= with_votes + Seq::new(
                0nat,
                |i: int| ActionView::Verify(OverlordMsgView::AggregatedVote(held_qcs[i]@)),
            ));
        }
        while qcs.len() > 0
            invariant
                0 <= j <= held_qcs.len(),
                qcs@ == held_qcs.skip(j),
                views(actions@) == with_votes + Seq::new(
                    j as nat,
                    |i: int| ActionView::Verify(OverlordMsgView::AggregatedVote(held_qcs[i]@)),
                ),
            decreases qcs.len(),
        {
            let ghost before = views(actions@);
            let q = qcs.remove(0);
            actions.push(Action::Verify(OverlordMsg::AggregatedVote(q)));
            proof {
                assert(q == held_qcs[j]);
                assert(qcs@ =~= held_qcs.skip(j + 1));
                assert(views(actions@) =~= before.push(
                    ActionView::Verify(OverlordMsgView::AggregatedVote(held_qcs[j]@)),
                ));
                assert(views(actions@) =~= with_votes + Seq::new(
                    (j + 1) as nat,
                    |i: int| ActionView::Verify(OverlordMsgView::AggregatedVote(held_qcs[i]@)),
                ));
                j = j + 1;
            }
        }
        let ghost with_qcs = views(actions@);
        actions.push(
            Action::Trigger(
                make_trigger(TriggerType::NewHeight(smr_status), Vec::new(), None, INIT_ROUND,
                    new_height),
            ),
        );
        proof {
            assert(with_qcs =~= head + Self::held_back(held_proposals, held_votes, held_qcs));
            assert(views(actions@) =~= with_qcs.push(actions@[actions@.len() - 1]@));
            assert(views(actions@) =~= head + Self::held_back(held_proposals, held_votes, held_qcs)
                + seq![actions@[actions@.len() - 1]@]);
        }
        Outcome { actions, error: None }
    }

    /// Takes in the application's answer to a commit, with the time in milliseconds that the
    /// height has taken. A status without an authority list names no next proposer: that is an
    /// error and nothing is done. Where the replica is the proposer of the status's height by the
    /// status's authority list and the height has taken less than the block interval, the replica
    /// waits for the rest of the interval first. Then it goes to the new height.
    pub fn commit_done(&mut self, status: Status, cost: u64) -> (out: Outcome)
        requires
            old(self).wf(),
        ensures
            final(self).wf(),
            status.authority_list@.len() == 0 ==> *final(self)
                == *old(self) && out.actions@.len() == 0
                && (out.error matches Some(ConsensusError::Other(_))),
            status.authority_list@.len() > 0 ==> {
                let waits = leader_in(status.authority_list@, status.height, INIT_ROUND) == old(
                    self,
                ).address@ && cost < old(self).block_interval;
                let k: int = if waits {
                    1
                } else {
                    0
                };
                &&& out.actions@.len() >= k
                &&& waits ==> out.actions@[0]@ == ActionView::Sleep(
                    (old(self).block_interval - cost) as u64,
                )
                &&& old(self).after_new_height(status, *final(self), out@.skip(k))
            },
    {
        let leader = match leader_of(&status.authority_list, status.height, INIT_ROUND) {
            Ok(leader) => leader,
            Err(e) => {
                return Outcome::fail(e);
            },
        };
        let mut actions: Vec<Action> = Vec::new();
        if bytes_eq(&self.address, &leader) && cost < self.block_interval {
            actions.push(Action::Sleep(self.block_interval - cost));
        }
        let ghost before = actions@;
        let mut rest = self.goto_new_height(status);
        let ghost tail = rest@;
        actions.append(&mut rest.actions);
        proof {
            assert(actions@.skip(before.len() as int) =~= tail.actions);
            if before.len() == 1 {
                assert(actions@[0] == before[0]);
            }
        }
        Outcome { actions, error: rest.error }
    }

    /// The trigger that hands the state machine what it resumes from.
    pub open spec fn wal_trigger(&self, base: SMRBaseView) -> ActionView {
        ActionView::Trigger(
            SMRTriggerView {
                trigger_type: TriggerType::WalInfo,
                source: TriggerSource::State,
                hash: Seq::empty(),
                lock_round: None,
                round: self.round,
                height: self.height,
                wal_info: Some(base),
            },
        )
    }

    fn make_wal_trigger(&self, base: SMRBase) -> (r: Action)
        ensures
            r@ == self.wal_trigger(base@),
    {
        Action::Trigger(
            SMRTrigger {
                trigger_type: TriggerType::WalInfo,
                source: TriggerSource::State,
                hash: Vec::new(),
                lock_round: None,
                round: self.round,
                height: self.height,
                wal_info: Some(base),
            },
        )
    }

    /// The write-ahead log holds no record although the replica is beyond the first height: the
    /// state machine resumes in the propose step of the replica's height and round, without a
    /// lock.
    pub fn wal_lost(&self) -> (out: Outcome)
        ensures
            out.done(
                seq![
                    self.wal_trigger(
                        SMRBaseView {
                            height: self.height,
                            round: self.round,
                            step: Step::Propose,
                            polc: None,
                        },
                    ),
                ],
            ),
    {
        let smr_base = SMRBase {
            height: self.height,
            round: self.round,
            step: Step::Propose,
            polc: None,
        };
        Outcome::one(self.make_wal_trigger(smr_base))
    }

    /// What starting from the write-ahead log comes to. A replica without consensus power does
    /// nothing. Without a record a replica at the first height does nothing, and one beyond it
    /// has the state machine resume in the propose step. With a record the replica takes over the
    /// record's height and round, finds the leader, which needs an authority list, takes over the
    /// certificate that brought it to the round, and takes in the record's lock: the certificate,
    /// held for its slot from then on, and the block under the certificate's hash. A record of the
    /// commit step must have a lock, and the replica commits the locked block again. After a
    /// record of the brake step the replica asks for the signature of its choke again. But for
    /// the commit step the state machine is then told what to resume from.
    pub open spec fn after_start(&self, wal: Option<WalInfo>, end: State, out: OutcomeView)
        -> bool {
        if !self.consensus_power {
            end == *self && out.nothing()
        } else {
            match wal {
                None => {
                    &&& end == *self
                    &&& if self.height != INIT_HEIGHT {
                        out.done(
                            seq![
                                self.wal_trigger(
                                    SMRBaseView {
                                        height: self.height,
                                        round: self.round,
                                        step: Step::Propose,
                                        polc: None,
                                    },
                                ),
                            ],
                        )
                    } else {
                        out.nothing()
                    }
                },
                Some(info) => {
                    let placed = State { height: info.height, round: info.round, ..*self };
                    if self.authority.current@.len() == 0 {
                        end == placed && out.actions.len() == 0 && (out.error matches Some(
                            ConsensusError::Other(_),
                        ))
                    } else {
                        &&& end.is_leader
                            == placed.proposer_is(info.height, info.round, self.address@)
                        &&& end.leader_address@ == self.authority.proposer(info.height, info.round)
                        &&& end.update_from_where == info.from
                        &&& end.votes.votes == self.votes.votes
                        &&& match info.lock {
                            Some(lock) => {
                                &&& end.votes.qcs@ == put(
                                    self.votes.qcs@,
                                    qc_at(
                                        lock.lock_votes.height,
                                        lock.lock_votes.round,
                                        lock.lock_votes.vote_type,
                                    ),
                                    lock.lock_votes,
                                )
                                &&& end.votes.qc_by_id(
                                    lock.lock_votes.height,
                                    lock.lock_votes.round,
                                    lock.lock_votes.vote_type,
                                ) == Some(lock.lock_votes)
                                &&& end.hash_with_block@ == self.hash_with_block@.insert(
                                    lock.lock_votes.block_hash@,
                                    lock.content,
                                )
                            },
                            None => end.votes.qcs == self.votes.qcs && end.hash_with_block
                                == self.hash_with_block,
                        }
                        &&& end == (State {
                            is_leader: end.is_leader,
                            leader_address: end.leader_address,
                            update_from_where: end.update_from_where,
                            votes: end.votes,
                            hash_with_block: end.hash_with_block,
                            ..placed
                        })
                        &&& if info.step == Step::Commit {
                            match info.lock {
                                Some(lock) => end.after_commit(lock.lock_votes.block_hash@, out),
                                None => out.actions.len() == 0 && (out.error matches Some(
                                    ConsensusError::LoadWalErr(_),
                                )),
                            }
                        } else if info.step == Step::Brake {
                            out.done(
                                seq![
                                    ActionView::SignChoke {
                                        choke: end.own_choke(),
                                        lock_round: match info.lock {
                                            Some(lock) => Some(lock.lock_round),
                                            None => None,
                                        },
                                    },
                                    end.wal_trigger(info@.to_smr_base()),
                                ],
                            )
                        } else {
                            out.done(seq![end.wal_trigger(info@.to_smr_base())])
                        }
                    }
                },
            }
        }
    }

    /// Starts from what the write-ahead log holds: its latest record, or nothing.
    pub fn start_with_wal(&mut self, wal_info: Option<WalInfo>) -> (out: Outcome)
        requires
            old(self).wf(),
        ensures
            final(self).wf(),
            old(self).after_start(wal_info, *final(self), out@),
    {
        if !self.consensus_power {
            return Outcome::empty();
        }
        let wal_info = match wal_info {
            Some(info) => info,
            None => {
                if self.height != INIT_HEIGHT {
                    return self.wal_lost();
                } else {
                    return Outcome::empty();
                }
            },
        };
        self.height = wal_info.height;
        self.round = wal_info.round;
        match self.is_proposer() {
            Ok(_) => {},
            Err(e) => {
                return Outcome::fail(e);
            },
        }
        let ghost info = wal_info;
        let WalInfo { height, round, step, lock, from } = wal_info;
        self.update_from_where = from;
        let (lock_round, lock_hash, polc) = match lock {
            Some(lock) => {
                let polc = lock.to_lock();
                let hash = lock.lock_votes.block_hash.clone();
                let lock_round = lock.lock_round;
                self.hash_with_block.insert(lock.lock_votes.block_hash.clone(), lock.content);
                self.votes.set_qc(lock.lock_votes);
                (Some(lock_round), Some(hash), Some(polc))
            },
            None => (None, None, None),
        };
        if step == Step::Commit {
            return match lock_hash {
                Some(hash) => self.handle_commit(hash),
                None => Outcome::fail(ConsensusError::LoadWalErr("no lock in commit step".to_string())),
            };
        }
        let base = SMRBase { height, round, step, polc };
        assert(base@ == info@.to_smr_base());
        let mut actions: Vec<Action> = Vec::new();
        if step == Step::Brake {
            let mut sub = self.handle_brake(self.round, lock_round);
            let ghost asked = sub.actions@;
            actions.append(&mut sub.actions);
            assert(actions@ =~= asked);
            assert(asked.len() == views(asked).len());
            assert(views(asked)[0] == asked[0]@);
        }
        actions.push(self.make_wal_trigger(base));
        proof {
            if step == Step::Brake {
                assert(views(actions@) =~= seq![
                    ActionView::SignChoke {
                        choke: self.own_choke(),
                        lock_round: match info.lock {
                            Some(lock) => Some(lock.lock_round),
                            None => None,
                        },
                    },
                    self.wal_trigger(info@.to_smr_base()),
                ]);
            } else {
                assert(views(actions@) =~= seq![self.wal_trigger(info@.to_smr_base())]);
            }
        }
        Outcome { actions, error: None }
    }

    /// What a message comes to. A replica without consensus power takes nothing in but a rich
    /// status. A stop is noted and handed on to the state machine. Every other message goes to
    /// the function for its kind.
    pub open spec fn after_msg(&self, msg: OverlordMsg, end: State, out: OutcomeView) -> bool {
        if !self.consensus_power && !(msg is RichStatus) {
            end == *self && out.nothing()
        } else {
            match msg {
                OverlordMsg::SignedProposal(sp) => self.after_signed_proposal(sp, end, out),
                OverlordMsg::AggregatedVote(av) => self.after_aggregated_vote(av, end, out),
                OverlordMsg::SignedVote(sv) => self.after_signed_vote(sv, end, out),
                OverlordMsg::SignedChoke(sc) => self.after_signed_choke(sc, end, out),
                OverlordMsg::RichStatus(rs) => self.after_new_height(rs, end, out),
                OverlordMsg::Stop => {
                    &&& end == (State { stopped: true, ..*self })
                    &&& out.done(
                        seq![
                            ActionView::Trigger(
                                state_trigger(
                                    TriggerType::Stop,
                                    Seq::empty(),
                                    None,
                                    self.round,
                                    self.height,
                                ),
                            ),
                        ],
                    )
                },
            }
        }
    }

    /// Takes in a message whose signature holds.
    pub fn handle_msg(&mut self, raw: OverlordMsg) -> (out: Outcome)
        requires
            old(self).wf(),
        ensures
            final(self).wf(),
            old(self).after_msg(raw, *final(self), out@),
    {
        if !self.consensus_power && !raw.is_rich_status() {
            return Outcome::empty();
        }
        match raw {
            OverlordMsg::SignedProposal(sp) => self.handle_signed_proposal(sp),
            OverlordMsg::AggregatedVote(av) => self.handle_aggregated_vote(av),
            OverlordMsg::SignedVote(sv) => self.handle_signed_vote(sv),
            OverlordMsg::SignedChoke(sc) => self.handle_signed_choke(sc),
            OverlordMsg::RichStatus(rs) => self.goto_new_height(rs),
            OverlordMsg::Stop => {
                self.stopped = true;
                Outcome::one(
                    Action::Trigger(
                        make_trigger(TriggerType::Stop, Vec::new(), None, self.round, self.height),
                    ),
                )
            },
        }
    }

    /// What an event of the state machine comes to. `None` says that the state machine is gone,
    /// which is an error. A call to enter a round, to vote, to commit or to brake goes to the
    /// function for it, a call to brake only if it is of the current height, and a stop is noted.
    pub open spec fn after_event(&self, event: Option<SMREvent>, end: State, out: OutcomeView)
        -> bool {
        match event {
            None => end == *self && out.actions.len() == 0 && (out.error matches Some(
                ConsensusError::Other(_),
            )),
            Some(SMREvent::NewRoundInfo { round, lock_round, lock_proposal, from_where,
                .. }) => self.after_new_round(
                round,
                lock_round,
                match lock_proposal {
                    Some(h) => Some(h@),
                    None => None,
                },
                from_where,
                end,
                out,
            ),
            Some(SMREvent::PrevoteVote { block_hash, lock_round, .. }) => end == *self && out.done(
                seq![
                    ActionView::SignVote {
                        vote: self.own_vote(block_hash@, VoteType::Prevote),
                        lock_round,
                    },
                ],
            ),
            Some(SMREvent::PrecommitVote { block_hash, lock_round, .. }) => end
                == *self && out.done(
                seq![
                    ActionView::SignVote {
                        vote: self.own_vote(block_hash@, VoteType::Precommit),
                        lock_round,
                    },
                ],
            ),
            Some(SMREvent::Commit(hash)) => end == *self && self.after_commit(hash@, out),
            Some(SMREvent::Brake { height, round, lock_round }) => {
                &&& end == *self
                &&& if height != self.height {
                    out.nothing()
                } else if round != self.round {
                    out.actions.len() == 0 && (out.error matches Some(
                        ConsensusError::CorrectnessErr(_),
                    ))
                } else {
                    out.done(seq![ActionView::SignChoke { choke: self.own_choke(), lock_round }])
                }
            },
            Some(SMREvent::Stop) => end == (State { stopped: true, ..*self }) && out.nothing(),
        }
    }

    /// Takes in an event of the state machine.
    pub fn handle_event(&mut self, event: Option<SMREvent>) -> (out: Outcome)
        requires
            old(self).wf(),
        ensures
            final(self).wf(),
            old(self).after_event(event, *final(self), out@),
    {
        let event = match event {
            Some(event) => event,
            None => {
                return Outcome::fail(ConsensusError::Other("Event sender dropped".to_string()));
            },
        };
        match event {
            SMREvent::NewRoundInfo {
                height: _,
                round,
                lock_round,
                lock_proposal,
                from_where,
                new_interval: _,
                new_config: _,
            } => self.handle_new_round(round, lock_round, lock_proposal, from_where),
            SMREvent::PrevoteVote { height: _, round: _, block_hash, lock_round } => {
                self.handle_vote_event(block_hash, VoteType::Prevote, lock_round)
            },
            SMREvent::PrecommitVote { height: _, round: _, block_hash, lock_round } => {
                self.handle_vote_event(block_hash, VoteType::Precommit, lock_round)
            },
            SMREvent::Commit(hash) => self.handle_commit(hash),
            SMREvent::Brake { height, round, lock_round } => {
                if height != self.height {
                    return Outcome::empty();
                }
                self.handle_brake(round, lock_round)
            },
            SMREvent::Stop => {
                self.stopped = true;
                Outcome::empty()
            },
        }
    }

    /// A state at the start: at the given height and the first round, with the authority list
    /// installed, nothing collected, and the empty certificate as the one that brought it there.
    pub fn new(addr: Address, init_height: u64, interval: u64, authority_list: Vec<Node>)
        -> (r: Self)
        ensures
            r.wf(),
            r.height == init_height,
            r.round == INIT_ROUND,
            r.address == addr,
            r.block_interval == interval,
            r.authority.current@ == sorted(authority_list@),
            r.authority.last@.len() == 0,
            r.consensus_power == r.authority.has(addr@),
            r.proposals.entries@.len() == 0,
            r.votes.votes@.len() == 0,
            r.votes.qcs@.len() == 0,
            r.chokes.chokes@.len() == 0,
            r.chokes.qcs@.len() == 0,
            r.hash_with_block@ == Map::<Seq<u8>, Vec<u8>>::empty(),
            r.is_full_transaction@ == Map::<Seq<u8>, bool>::empty(),
            !r.is_leader,
            !r.stopped,
            r.leader_address@.len() == 0,
            r.update_from_where matches UpdateFrom::PrecommitQC(qc) && qc.height
                == 0 && qc.round == 0
                && qc.block_hash@.len() == 0,
    {
        let mut auth = AuthorityManage::new();
        auth.update(authority_list);
        let consensus_power = auth.contains(&addr);
        State {
            height: init_height,
            round: INIT_ROUND,
            consensus_power,
            address: addr,
            proposals: ProposalCollector::new(),
            votes: VoteCollector::new(),
            chokes: ChokeCollector::new(),
            authority: auth,
            hash_with_block: ByteMap::new(),
            is_full_transaction: ByteMap::new(),
            is_leader: false,
            leader_address: Vec::new(),
            update_from_where: UpdateFrom::PrecommitQC(mock_init_qc()),
            block_interval: interval,
            stopped: false,
        }
    }
}

/// What to do with a message as it comes from the network.
#[derive(Clone, Copy, Debug, PartialEq, Eq, Structural)]
pub enum Route {
    /// Hand the message on as it is.
    Forward,
    /// Verify the message's signature against the current authority list first.
    Verify,
    /// Drop the message.
    Drop,
}

impl State {
    /// Whether a message from the network is handed on as it is, verified first, or dropped. A
    /// rich status and a stop are handed on. So is a message of a later height: it will be
    /// verified when its height comes. A message of the current height is verified, and one of an
    /// earlier height is dropped.
    pub fn route_msg(&self, msg: &OverlordMsg) -> (r: Route)
        ensures
            r == if msg@ is RichStatus || msg@ is Stop || self.height < msg@.height() {
                Route::Forward
            } else if self.height == msg@.height() {
                Route::Verify
            } else {
                Route::Drop
            },
    {
        match msg {
            OverlordMsg::RichStatus(_) => Route::Forward,
            OverlordMsg::Stop => Route::Forward,
            _ => {
                let height = msg.get_height();
                if self.height < height {
                    Route::Forward
                } else if self.height == height {
                    Route::Verify
                } else {
                    Route::Drop
                }
            },
        }
    }
}

} // verus!
