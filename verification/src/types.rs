//! The values that replicas exchange, and their mathematical views.

use vstd::prelude::*;
use vstd::std_specs::convert::{FromSpecImpl, TryFromSpecImpl};
use crate::DurationConfig;
use crate::byte_order::{bytes_eq, Addressed};
use crate::error::ConsensusError;
use crate::smr::smr_types::{SMRStatus, Step, TriggerType};

verus! {

/// Address of a replica: an uninterpreted byte string.
pub type Address = Vec<u8>;

/// Digest of a block: an uninterpreted byte string. The empty hash stands for "no block".
pub type Hash = Vec<u8>;

/// Signature: an uninterpreted byte string.
pub type Signature = Vec<u8>;

/// Copies a list of byte strings.
pub fn clone_byte_strings(list: &Vec<Vec<u8>>) -> (r: Vec<Vec<u8>>)
    ensures
        r.deep_view() == list.deep_view(),
{
    let mut r: Vec<Vec<u8>> = Vec::new();
    let mut i: usize = 0;
    while i < list.len()
        invariant
            i <= list.len(),
            r.len() == i,
            forall|k: int| 0 <= k < i ==> r[k]@ == list[k]@,
        decreases list.len() - i,
    {
        r.push(list[i].clone());
        i += 1;
    }
    assert(r.deep_view() =~= list.deep_view());
    r
}

/// The view of a list of byte strings holds the views of the byte strings.
pub proof fn lemma_byte_strings_view(list: Vec<Vec<u8>>)
    ensures
        list.deep_view().len() == list@.len(),
        forall|i: int| 0 <= i < list@.len() ==> #[trigger] list.deep_view()[i] == list@[i]@,
{
    assert forall|i: int| 0 <= i < list@.len() implies #[trigger] list.deep_view()[i]
        == list@[i]@ by {
        assert(list@[i].deep_view() =~= list@[i]@);
    }
}

/// Vote or QC types.
#[derive(Clone, Copy, Debug, PartialEq, Eq, Hash, Structural)]
pub enum VoteType {
    /// Prevote vote or QC.
    Prevote,
    /// Precommit vote or QC.
    Precommit,
}

impl View for VoteType {
    type V = VoteType;

    open spec fn view(&self) -> VoteType {
        *self
    }
}

impl VoteType {
    /// The number that stands for the vote type on the wire.
    pub open spec fn code(self) -> u8 {
        match self {
            VoteType::Prevote => 1,
            VoteType::Precommit => 2,
        }
    }

    /// Prevote is 1, precommit is 2.
    pub fn to_u8(self) -> (r: u8)
        ensures
            r == self.code(),
    {
        match self {
            VoteType::Prevote => 1,
            VoteType::Precommit => 2,
        }
    }

    /// The vote type for a number: 1 is prevote, 2 is precommit, every other number is refused.
    pub fn try_from_u8(s: u8) -> (r: Result<VoteType, ConsensusError>)
        ensures
            s == 1 ==> r == Ok::<VoteType, ConsensusError>(VoteType::Prevote),
            s == 2 ==> r == Ok::<VoteType, ConsensusError>(VoteType::Precommit),
            s != 1 && s != 2 ==> (r matches Err(ConsensusError::Other(_))),
    {
        match s {
            1 => Ok(VoteType::Prevote),
            2 => Ok(VoteType::Precommit),
            _ => Err(ConsensusError::Other("".to_string())),
        }
    }

    /// The trigger that a quorum certificate of this type fires.
    pub fn to_trigger_type(self) -> (r: TriggerType)
        ensures
            r == self.trigger_type(),
    {
        match self {
            VoteType::Prevote => TriggerType::PrevoteQC,
            VoteType::Precommit => TriggerType::PrecommitQC,
        }
    }

    pub open spec fn trigger_type(self) -> TriggerType {
        match self {
            VoteType::Prevote => TriggerType::PrevoteQC,
            VoteType::Precommit => TriggerType::PrecommitQC,
        }
    }

    /// The step in which votes of this type are cast.
    pub fn to_step(self) -> (r: Step)
        ensures
            r == self.step(),
    {
        match self {
            VoteType::Prevote => Step::Prevote,
            VoteType::Precommit => Step::Precommit,
        }
    }

    pub open spec fn step(self) -> Step {
        match self {
            VoteType::Prevote => Step::Prevote,
            VoteType::Precommit => Step::Precommit,
        }
    }
}

impl TryFrom<u8> for VoteType {
    type Error = ConsensusError;

    /// The vote type for a number: 1 is prevote, 2 is precommit, every other number is refused.
    fn try_from(s: u8) -> (r: Result<Self, Self::Error>)
        ensures
            s == 1 ==> r == Ok::<VoteType, ConsensusError>(VoteType::Prevote),
            s == 2 ==> r == Ok::<VoteType, ConsensusError>(VoteType::Precommit),
            s != 1 && s != 2 ==> (r matches Err(ConsensusError::Other(_))),
    {
        VoteType::try_from_u8(s)
    }
}

impl TryFromSpecImpl<u8> for VoteType {
    /// The error of the conversion holds a text, which no spec function names: what the
    /// conversion gives is stated at `try_from` itself.
    open spec fn obeys_try_from_spec() -> bool {
        false
    }

    open spec fn try_from_spec(s: u8) -> Result<Self, ConsensusError> {
        if s == 1 {
            Ok(VoteType::Prevote)
        } else if s == 2 {
            Ok(VoteType::Precommit)
        } else {
            Err(vstd::pervasive::arbitrary())
        }
    }
}

impl From<VoteType> for u8 {
    fn from(v: VoteType) -> (r: u8) {
        v.to_u8()
    }
}

impl FromSpecImpl<VoteType> for u8 {
    open spec fn obeys_from_spec() -> bool {
        true
    }

    open spec fn from_spec(v: VoteType) -> u8 {
        v.code()
    }
}

impl From<VoteType> for TriggerType {
    fn from(v: VoteType) -> (r: TriggerType) {
        v.to_trigger_type()
    }
}

impl FromSpecImpl<VoteType> for TriggerType {
    open spec fn obeys_from_spec() -> bool {
        true
    }

    open spec fn from_spec(v: VoteType) -> TriggerType {
        v.trigger_type()
    }
}

impl From<VoteType> for Step {
    fn from(v: VoteType) -> (r: Step) {
        v.to_step()
    }
}

impl FromSpecImpl<VoteType> for Step {
    open spec fn obeys_from_spec() -> bool {
        true
    }

    open spec fn from_spec(v: VoteType) -> Step {
        v.step()
    }
}

/// A vote.
#[derive(Debug, PartialEq, Eq, Hash)]
pub struct Vote {
    /// Height of the vote.
    pub height: u64,
    /// Round of the vote.
    pub round: u64,
    /// Type of the vote.
    pub vote_type: VoteType,
    /// Block hash of the vote; empty for a vote for no block.
    pub block_hash: Hash,
}

pub struct VoteView {
    pub height: u64,
    pub round: u64,
    pub vote_type: VoteType,
    pub block_hash: Seq<u8>,
}

impl View for Vote {
    type V = VoteView;

    open spec fn view(&self) -> VoteView {
        VoteView {
            height: self.height,
            round: self.round,
            vote_type: self.vote_type,
            block_hash: self.block_hash@,
        }
    }
}

impl Clone for Vote {
    fn clone(&self) -> (r: Self)
        ensures
            r@ == self@,
    {
        Vote {
            height: self.height,
            round: self.round,
            vote_type: self.vote_type,
            block_hash: self.block_hash.clone(),
        }
    }
}

/// A signed vote.
#[derive(Debug, PartialEq, Eq, Hash)]
pub struct SignedVote {
    /// Signature of the vote.
    pub signature: Signature,
    /// A vote.
    pub vote: Vote,
    /// Voter address.
    pub voter: Address,
}

pub struct SignedVoteView {
    pub signature: Seq<u8>,
    pub vote: VoteView,
    pub voter: Seq<u8>,
}

impl View for SignedVote {
    type V = SignedVoteView;

    open spec fn view(&self) -> SignedVoteView {
        SignedVoteView { signature: self.signature@, vote: self.vote@, voter: self.voter@ }
    }
}

impl Clone for SignedVote {
    fn clone(&self) -> (r: Self)
        ensures
            r@ == self@,
    {
        SignedVote {
            signature: self.signature.clone(),
            vote: self.vote.clone(),
            voter: self.voter.clone(),
        }
    }
}

impl Addressed for SignedVote {
    /// A signed vote is ordered by its voter.
    open spec fn address_key(&self) -> Seq<u8> {
        self.voter@
    }

    fn address_ref(&self) -> (r: &Vec<u8>) {
        &self.voter
    }
}

impl SignedVote {
    /// Get the height of the signed vote.
    pub fn get_height(&self) -> (r: u64)
        ensures
            r == self.vote.height,
    {
        self.vote.height
    }

    /// Get the round of the signed vote.
    pub fn get_round(&self) -> (r: u64)
        ensures
            r == self.vote.round,
    {
        self.vote.round
    }

    /// Get the hash of the signed vote.
    pub fn get_hash(&self) -> (r: Hash)
        ensures
            r@ == self.vote.block_hash@,
    {
        self.vote.block_hash.clone()
    }

    /// If the signed vote is a prevote vote.
    pub fn is_prevote(&self) -> (r: bool)
        ensures
            r == (self.vote.vote_type is Prevote),
    {
        self.vote.vote_type == VoteType::Prevote
    }
}

/// An aggregate signature.
#[derive(Debug, PartialEq, Eq, Hash)]
pub struct AggregatedSignature {
    /// Aggregated signature.
    pub signature: Signature,
    /// Voter address bit map, over the authority list in ascending order of address.
    pub address_bitmap: Vec<u8>,
}

pub struct AggregatedSignatureView {
    pub signature: Seq<u8>,
    pub address_bitmap: Seq<u8>,
}

impl View for AggregatedSignature {
    type V = AggregatedSignatureView;

    open spec fn view(&self) -> AggregatedSignatureView {
        AggregatedSignatureView {
            signature: self.signature@,
            address_bitmap: self.address_bitmap@,
        }
    }
}

impl Clone for AggregatedSignature {
    fn clone(&self) -> (r: Self)
        ensures
            r@ == self@,
    {
        AggregatedSignature {
            signature: self.signature.clone(),
            address_bitmap: self.address_bitmap.clone(),
        }
    }
}

/// An aggregated vote: a quorum certificate.
#[derive(Debug, PartialEq, Eq, Hash)]
pub struct AggregatedVote {
    /// Aggregated signature of the vote.
    pub signature: AggregatedSignature,
    /// Type of the vote.
    pub vote_type: VoteType,
    /// Height of the vote.
    pub height: u64,
    /// Round of the vote.
    pub round: u64,
    /// Proposal hash of the vote.
    pub block_hash: Hash,
    /// The leader that aggregated the signed votes.
    pub leader: Address,
}

pub struct AggregatedVoteView {
    pub signature: AggregatedSignatureView,
    pub vote_type: VoteType,
    pub height: u64,
    pub round: u64,
    pub block_hash: Seq<u8>,
    pub leader: Seq<u8>,
}

impl View for AggregatedVote {
    type V = AggregatedVoteView;

    open spec fn view(&self) -> AggregatedVoteView {
        AggregatedVoteView {
            signature: self.signature@,
            vote_type: self.vote_type,
            height: self.height,
            round: self.round,
            block_hash: self.block_hash@,
            leader: self.leader@,
        }
    }
}

impl Clone for AggregatedVote {
    fn clone(&self) -> (r: Self)
        ensures
            r@ == self@,
    {
        AggregatedVote {
            signature: self.signature.clone(),
            vote_type: self.vote_type,
            height: self.height,
            round: self.round,
            block_hash: self.block_hash.clone(),
            leader: self.leader.clone(),
        }
    }
}

impl AggregatedVoteView {
    /// The vote that the certificate certifies.
    pub open spec fn to_vote(self) -> VoteView {
        VoteView {
            height: self.height,
            round: self.round,
            vote_type: self.vote_type,
            block_hash: self.block_hash,
        }
    }
}

impl AggregatedVote {
    /// Get the height of the aggregate vote.
    pub fn get_height(&self) -> (r: u64)
        ensures
            r == self.height,
    {
        self.height
    }

    /// Get the round of the aggregate vote.
    pub fn get_round(&self) -> (r: u64)
        ensures
            r == self.round,
    {
        self.round
    }

    /// If the aggregate vote is a prevote quorum certificate.
    pub fn is_prevote_qc(&self) -> (r: bool)
        ensures
            r == (self.vote_type is Prevote),
    {
        self.vote_type == VoteType::Prevote
    }

    /// The vote that the certificate certifies.
    pub fn to_vote(&self) -> (r: Vote)
        ensures
            r@ == self@.to_vote(),
    {
        Vote {
            height: self.height,
            round: self.round,
            vote_type: self.vote_type,
            block_hash: self.block_hash.clone(),
        }
    }
}

/// A proof of lock change: the prevote certificate that justifies a locked proposal.
#[derive(Debug, PartialEq, Eq)]
pub struct PoLC {
    /// Lock round of the proposal.
    pub lock_round: u64,
    /// Lock votes of the proposal.
    pub lock_votes: AggregatedVote,
}

pub struct PoLCView {
    pub lock_round: u64,
    pub lock_votes: AggregatedVoteView,
}

impl View for PoLC {
    type V = PoLCView;

    open spec fn view(&self) -> PoLCView {
        PoLCView { lock_round: self.lock_round, lock_votes: self.lock_votes@ }
    }
}

impl Clone for PoLC {
    fn clone(&self) -> (r: Self)
        ensures
            r@ == self@,
    {
        PoLC { lock_round: self.lock_round, lock_votes: self.lock_votes.clone() }
    }
}

/// A proposal. The content is the serialized block: the core never looks inside it.
#[derive(Debug, PartialEq, Eq)]
pub struct Proposal {
    /// Height of the proposal.
    pub height: u64,
    /// Round of the proposal.
    pub round: u64,
    /// Proposal content.
    pub content: Vec<u8>,
    /// Proposal block hash.
    pub block_hash: Hash,
    /// Optional field. If the proposal has a PoLC, this contains the lock round and lock votes.
    pub lock: Option<PoLC>,
    /// Proposer address.
    pub proposer: Address,
}

pub struct ProposalView {
    pub height: u64,
    pub round: u64,
    pub content: Seq<u8>,
    pub block_hash: Seq<u8>,
    pub lock: Option<PoLCView>,
    pub proposer: Seq<u8>,
}

impl View for Proposal {
    type V = ProposalView;

    open spec fn view(&self) -> ProposalView {
        ProposalView {
            height: self.height,
            round: self.round,
            content: self.content@,
            block_hash: self.block_hash@,
            lock: match self.lock {
                Some(polc) => Some(polc@),
                None => None,
            },
            proposer: self.proposer@,
        }
    }
}

impl Clone for Proposal {
    fn clone(&self) -> (r: Self)
        ensures
            r@ == self@,
    {
        Proposal {
            height: self.height,
            round: self.round,
            content: self.content.clone(),
            block_hash: self.block_hash.clone(),
            lock: match &self.lock {
                Some(polc) => Some(polc.clone()),
                None => None,
            },
            proposer: self.proposer.clone(),
        }
    }
}

impl ProposalView {
    /// A proof of lock change fits the proposal that carries it: it is a prevote certificate of
    /// the proposal's height, for the proposal's block, of the lock round, which is an earlier
    /// round than the proposal's.
    pub open spec fn lock_fits(self) -> bool {
        match self.lock {
            Some(polc) => {
                &&& polc.lock_votes.vote_type is Prevote
                &&& polc.lock_votes.height == self.height
                &&& polc.lock_votes.round == polc.lock_round
                &&& polc.lock_round < self.round
                &&& polc.lock_votes.block_hash == self.block_hash
            },
            None => true,
        }
    }
}

impl Proposal {
    /// Whether the proof of lock change fits the proposal that carries it. A proposal without one
    /// is in order.
    pub fn lock_fits(&self) -> (r: bool)
        ensures
            r == self@.lock_fits(),
    {
        match &self.lock {
            Some(polc) => {
                polc.lock_votes.vote_type == VoteType::Prevote && polc.lock_votes.height
                    == self.height
                    && polc.lock_votes.round == polc.lock_round && polc.lock_round < self.round
                    && bytes_eq(&polc.lock_votes.block_hash, &self.block_hash)
            },
            None => true,
        }
    }
}

/// A signed proposal.
#[derive(Debug, PartialEq, Eq)]
pub struct SignedProposal {
    /// Signature of the proposal.
    pub signature: Signature,
    /// A proposal.
    pub proposal: Proposal,
}

pub struct SignedProposalView {
    pub signature: Seq<u8>,
    pub proposal: ProposalView,
}

impl View for SignedProposal {
    type V = SignedProposalView;

    open spec fn view(&self) -> SignedProposalView {
        SignedProposalView { signature: self.signature@, proposal: self.proposal@ }
    }
}

impl Clone for SignedProposal {
    fn clone(&self) -> (r: Self)
        ensures
            r@ == self@,
    {
        SignedProposal { signature: self.signature.clone(), proposal: self.proposal.clone() }
    }
}

/// A proof of commitment.
#[derive(Debug, PartialEq, Eq)]
pub struct Proof {
    /// Height of the proof.
    pub height: u64,
    /// Round of the proof.
    pub round: u64,
    /// Block hash of the proof.
    pub block_hash: Hash,
    /// Aggregated signature of the proof.
    pub signature: AggregatedSignature,
}

pub struct ProofView {
    pub height: u64,
    pub round: u64,
    pub block_hash: Seq<u8>,
    pub signature: AggregatedSignatureView,
}

impl View for Proof {
    type V = ProofView;

    open spec fn view(&self) -> ProofView {
        ProofView {
            height: self.height,
            round: self.round,
            block_hash: self.block_hash@,
            signature: self.signature@,
        }
    }
}

impl Clone for Proof {
    fn clone(&self) -> (r: Self)
        ensures
            r@ == self@,
    {
        Proof {
            height: self.height,
            round: self.round,
            block_hash: self.block_hash.clone(),
            signature: self.signature.clone(),
        }
    }
}

/// A commit: a block with the proof that a quorum precommitted it.
#[derive(Debug, PartialEq, Eq)]
pub struct Commit {
    /// Height of the commit.
    pub height: u64,
    /// Commit content.
    pub content: Vec<u8>,
    /// The consensus proof.
    pub proof: Proof,
}

pub struct CommitView {
    pub height: u64,
    pub content: Seq<u8>,
    pub proof: ProofView,
}

impl View for Commit {
    type V = CommitView;

    open spec fn view(&self) -> CommitView {
        CommitView { height: self.height, content: self.content@, proof: self.proof@ }
    }
}

impl Clone for Commit {
    fn clone(&self) -> (r: Self)
        ensures
            r@ == self@,
    {
        Commit { height: self.height, content: self.content.clone(), proof: self.proof.clone() }
    }
}

/// A node info.
#[derive(Debug, PartialEq, Eq)]
pub struct Node {
    /// Node address.
    pub address: Address,
    /// The propose weight of the node.
    pub propose_weight: u32,
    /// The vote weight of the node.
    pub vote_weight: u32,
}

pub struct NodeView {
    pub address: Seq<u8>,
    pub propose_weight: u32,
    pub vote_weight: u32,
}

impl View for Node {
    type V = NodeView;

    open spec fn view(&self) -> NodeView {
        NodeView {
            address: self.address@,
            propose_weight: self.propose_weight,
            vote_weight: self.vote_weight,
        }
    }
}

impl Clone for Node {
    fn clone(&self) -> (r: Self)
        ensures
            r@ == self@,
    {
        Node {
            address: self.address.clone(),
            propose_weight: self.propose_weight,
            vote_weight: self.vote_weight,
        }
    }
}

impl Addressed for Node {
    /// A node is ordered by its address.
    open spec fn address_key(&self) -> Seq<u8> {
        self.address@
    }

    fn address_ref(&self) -> (r: &Vec<u8>) {
        &self.address
    }
}

impl Node {
    /// Create a new node with default propose weight `1` and vote weight `1`.
    pub fn new(addr: Address) -> (r: Self)
        ensures
            r@ == (NodeView { address: addr@, propose_weight: 1, vote_weight: 1 }),
    {
        Node { address: addr, propose_weight: 1u32, vote_weight: 1u32 }
    }

    /// Set a new propose weight of the node.
    pub fn set_propose_weight(&mut self, propose_weight: u32)
        ensures
            final(self)@ == (NodeView { propose_weight, ..old(self)@ }),
    {
        self.propose_weight = propose_weight;
    }

    /// Set a new vote weight of the node.
    pub fn set_vote_weight(&mut self, vote_weight: u32)
        ensures
            final(self)@ == (NodeView { vote_weight, ..old(self)@ }),
    {
        self.vote_weight = vote_weight;
    }
}

/// The views of the nodes of a list, in the list's order.
pub open spec fn node_views(list: Seq<Node>) -> Seq<NodeView> {
    Seq::new(list.len(), |i: int| list[i]@)
}

/// Copies a list of nodes.
pub fn clone_nodes(list: &Vec<Node>) -> (r: Vec<Node>)
    ensures
        node_views(r@) == node_views(list@),
{
    let mut r: Vec<Node> = Vec::new();
    let mut i: usize = 0;
    while i < list.len()
        invariant
            i <= list.len(),
            r.len() == i,
            forall|k: int| 0 <= k < i ==> r[k]@ == list[k]@,
        decreases list.len() - i,
    {
        r.push(list[i].clone());
        i += 1;
    }
    assert(node_views(r@) =~= node_views(list@));
    r
}

/// A rich status: what the application reports after a commit.
#[derive(Debug, PartialEq, Eq)]
pub struct Status {
    /// New height.
    pub height: u64,
    /// New block interval.
    pub interval: Option<u64>,
    /// New timeout configuration.
    pub timer_config: Option<DurationConfig>,
    /// New authority list.
    pub authority_list: Vec<Node>,
}

pub struct StatusView {
    pub height: u64,
    pub interval: Option<u64>,
    pub timer_config: Option<DurationConfig>,
    pub authority_list: Seq<NodeView>,
}

impl View for Status {
    type V = StatusView;

    open spec fn view(&self) -> StatusView {
        StatusView {
            height: self.height,
            interval: self.interval,
            timer_config: self.timer_config,
            authority_list: node_views(self.authority_list@),
        }
    }
}

impl Clone for Status {
    fn clone(&self) -> (r: Self)
        ensures
            r@ == self@,
    {
        Status {
            height: self.height,
            interval: self.interval,
            timer_config: self.timer_config,
            authority_list: clone_nodes(&self.authority_list),
        }
    }
}

impl StatusView {
    /// Whether the address is that of a node of the authority list.
    pub open spec fn is_consensus_node(self, address: Seq<u8>) -> bool {
        exists|i: int| 0 <= i < self.authority_list.len() && self.authority_list[i].address
            == address
    }

    /// The part of the status that the state machine needs.
    pub open spec fn to_smr_status(self) -> SMRStatus {
        SMRStatus {
            height: self.height,
            new_interval: self.interval,
            new_config: self.timer_config,
        }
    }
}

impl Status {
    /// Whether the address is that of a node of the authority list.
    pub fn is_consensus_node(&self, address: &Address) -> (r: bool)
        ensures
            r == self@.is_consensus_node(address@),
    {
        let mut i: usize = 0;
        while i < self.authority_list.len()
            invariant
                i <= self.authority_list.len(),
                forall|k: int| 0 <= k < i ==> self@.authority_list[k].address != address@,
            decreases self.authority_list.len() - i,
        {
            if bytes_eq(&self.authority_list[i].address, address) {
                assert(self@.authority_list[i as int].address == address@);
                return true;
            }
            i += 1;
        }
        false
    }

    /// The part of the status that the state machine needs.
    pub fn to_smr_status(&self) -> (r: SMRStatus)
        ensures
            r == self@.to_smr_status(),
    {
        SMRStatus {
            height: self.height,
            new_interval: self.interval,
            new_config: self.timer_config,
        }
    }
}

impl From<Status> for SMRStatus {
    fn from(s: Status) -> (r: SMRStatus) {
        s.to_smr_status()
    }
}

impl FromSpecImpl<Status> for SMRStatus {
    open spec fn obeys_from_spec() -> bool {
        true
    }

    open spec fn from_spec(s: Status) -> SMRStatus {
        s@.to_smr_status()
    }
}

/// A verify response: the outcome of checking a block.
#[derive(Debug, PartialEq, Eq)]
pub struct VerifyResp {
    /// The height of the verified block.
    pub height: u64,
    /// The round of the verified block.
    pub round: u64,
    /// Verified proposal hash.
    pub block_hash: Hash,
    /// The block is pass or not.
    pub is_pass: bool,
}

/// An aggregated choke.
#[derive(Debug, PartialEq, Eq, Hash)]
pub struct AggregatedChoke {
    /// The height of the aggregated choke.
    pub height: u64,
    /// The round of the aggregated choke.
    pub round: u64,
    /// The aggregated signature of the aggregated choke.
    pub signature: Signature,
    /// The voters of the aggregated choke.
    pub voters: Vec<Address>,
}

pub struct AggregatedChokeView {
    pub height: u64,
    pub round: u64,
    pub signature: Seq<u8>,
    pub voters: Seq<Seq<u8>>,
}

impl View for AggregatedChoke {
    type V = AggregatedChokeView;

    open spec fn view(&self) -> AggregatedChokeView {
        AggregatedChokeView {
            height: self.height,
            round: self.round,
            signature: self.signature@,
            voters: self.voters.deep_view(),
        }
    }
}

impl Clone for AggregatedChoke {
    fn clone(&self) -> (r: Self)
        ensures
            r@ == self@,
    {
        AggregatedChoke {
            height: self.height,
            round: self.round,
            signature: self.signature.clone(),
            voters: clone_byte_strings(&self.voters),
        }
    }
}

/// The height and round of a choke: the part of it that is signed.
#[derive(Clone, Copy, Debug, PartialEq, Eq, Structural)]
pub struct HashChoke {
    /// The height of the choke.
    pub height: u64,
    /// The round of the choke.
    pub round: u64,
}

impl AggregatedChoke {
    /// The number of voters.
    pub fn len(&self) -> (r: usize)
        ensures
            r == self@.voters.len(),
    {
        self.voters.len()
    }

    /// The part of the choke that is signed.
    pub fn to_hash(&self) -> (r: HashChoke)
        ensures
            r == (HashChoke { height: self.height, round: self.round }),
    {
        HashChoke { height: self.height, round: self.round }
    }
}

/// How the state came to the current round.
#[derive(Debug, PartialEq, Eq, Hash)]
pub enum UpdateFrom {
    /// From a prevote quorum certificate.
    PrevoteQC(AggregatedVote),
    /// From a precommit quorum certificate.
    PrecommitQC(AggregatedVote),
    /// From a choke quorum certificate.
    ChokeQC(AggregatedChoke),
}

pub enum UpdateFromView {
    PrevoteQC(AggregatedVoteView),
    PrecommitQC(AggregatedVoteView),
    ChokeQC(AggregatedChokeView),
}

impl View for UpdateFrom {
    type V = UpdateFromView;

    open spec fn view(&self) -> UpdateFromView {
        match self {
            UpdateFrom::PrevoteQC(qc) => UpdateFromView::PrevoteQC(qc@),
            UpdateFrom::PrecommitQC(qc) => UpdateFromView::PrecommitQC(qc@),
            UpdateFrom::ChokeQC(qc) => UpdateFromView::ChokeQC(qc@),
        }
    }
}

impl Clone for UpdateFrom {
    fn clone(&self) -> (r: Self)
        ensures
            r@ == self@,
    {
        match self {
            UpdateFrom::PrevoteQC(qc) => UpdateFrom::PrevoteQC(qc.clone()),
            UpdateFrom::PrecommitQC(qc) => UpdateFrom::PrecommitQC(qc.clone()),
            UpdateFrom::ChokeQC(qc) => UpdateFrom::ChokeQC(qc.clone()),
        }
    }
}

/// A choke: the signal that a replica gives up the current round.
#[derive(Debug, PartialEq, Eq, Hash)]
pub struct Choke {
    /// The height of the choke.
    pub height: u64,
    /// The round of the choke.
    pub round: u64,
    /// How the sender came to its round.
    pub from: UpdateFrom,
}

pub struct ChokeView {
    pub height: u64,
    pub round: u64,
    pub from: UpdateFromView,
}

impl View for Choke {
    type V = ChokeView;

    open spec fn view(&self) -> ChokeView {
        ChokeView { height: self.height, round: self.round, from: self.from@ }
    }
}

impl Clone for Choke {
    fn clone(&self) -> (r: Self)
        ensures
            r@ == self@,
    {
        Choke { height: self.height, round: self.round, from: self.from.clone() }
    }
}

impl Choke {
    /// The part of the choke that is signed.
    pub fn to_hash(&self) -> (r: HashChoke)
        ensures
            r == (HashChoke { height: self.height, round: self.round }),
    {
        HashChoke { height: self.height, round: self.round }
    }
}

/// A signed choke.
#[derive(Debug, PartialEq, Eq, Hash)]
pub struct SignedChoke {
    /// The signature of the choke.
    pub signature: Signature,
    /// The choke message.
    pub choke: Choke,
    /// The choke address.
    pub address: Address,
}

pub struct SignedChokeView {
    pub signature: Seq<u8>,
    pub choke: ChokeView,
    pub address: Seq<u8>,
}

impl View for SignedChoke {
    type V = SignedChokeView;

    open spec fn view(&self) -> SignedChokeView {
        SignedChokeView { signature: self.signature@, choke: self.choke@, address: self.address@ }
    }
}

impl Clone for SignedChoke {
    fn clone(&self) -> (r: Self)
        ensures
            r@ == self@,
    {
        SignedChoke {
            signature: self.signature.clone(),
            choke: self.choke.clone(),
            address: self.address.clone(),
        }
    }
}

/// Messages to the consensus core.
#[derive(Debug, PartialEq, Eq)]
pub enum OverlordMsg {
    /// Signed proposal message.
    SignedProposal(SignedProposal),
    /// Signed vote message.
    SignedVote(SignedVote),
    /// Aggregated vote message.
    AggregatedVote(AggregatedVote),
    /// Rich status message.
    RichStatus(Status),
    /// Signed choke message.
    SignedChoke(SignedChoke),
    /// Stop the consensus process.
    Stop,
}

pub enum OverlordMsgView {
    SignedProposal(SignedProposalView),
    SignedVote(SignedVoteView),
    AggregatedVote(AggregatedVoteView),
    RichStatus(StatusView),
    SignedChoke(SignedChokeView),
    Stop,
}

impl View for OverlordMsg {
    type V = OverlordMsgView;

    open spec fn view(&self) -> OverlordMsgView {
        match self {
            OverlordMsg::SignedProposal(sp) => OverlordMsgView::SignedProposal(sp@),
            OverlordMsg::SignedVote(sv) => OverlordMsgView::SignedVote(sv@),
            OverlordMsg::AggregatedVote(av) => OverlordMsgView::AggregatedVote(av@),
            OverlordMsg::RichStatus(s) => OverlordMsgView::RichStatus(s@),
            OverlordMsg::SignedChoke(sc) => OverlordMsgView::SignedChoke(sc@),
            OverlordMsg::Stop => OverlordMsgView::Stop,
        }
    }
}

impl Clone for OverlordMsg {
    fn clone(&self) -> (r: Self)
        ensures
            r@ == self@,
    {
        match self {
            OverlordMsg::SignedProposal(sp) => OverlordMsg::SignedProposal(sp.clone()),
            OverlordMsg::SignedVote(sv) => OverlordMsg::SignedVote(sv.clone()),
            OverlordMsg::AggregatedVote(av) => OverlordMsg::AggregatedVote(av.clone()),
            OverlordMsg::RichStatus(s) => OverlordMsg::RichStatus(s.clone()),
            OverlordMsg::SignedChoke(sc) => OverlordMsg::SignedChoke(sc.clone()),
            OverlordMsg::Stop => OverlordMsg::Stop,
        }
    }
}

impl OverlordMsgView {
    /// The height that the message speaks of. `Stop` speaks of none.
    pub open spec fn height(self) -> u64
        recommends
            !(self is Stop),
    {
        match self {
            OverlordMsgView::SignedProposal(sp) => sp.proposal.height,
            OverlordMsgView::SignedVote(sv) => sv.vote.height,
            OverlordMsgView::AggregatedVote(av) => av.height,
            OverlordMsgView::RichStatus(s) => s.height,
            OverlordMsgView::SignedChoke(sc) => sc.choke.height,
            OverlordMsgView::Stop => 0,
        }
    }
}

impl OverlordMsg {
    /// Whether the message is a rich status.
    pub fn is_rich_status(&self) -> (r: bool)
        ensures
            r == (self@ is RichStatus),
    {
        match self {
            OverlordMsg::RichStatus(_) => true,
            _ => false,
        }
    }

    /// The height that the message speaks of.
    pub fn get_height(&self) -> (r: u64)
        requires
            !(self@ is Stop),
        ensures
            r == self@.height(),
    {
        match self {
            OverlordMsg::SignedProposal(sp) => sp.proposal.height,
            OverlordMsg::SignedVote(sv) => sv.get_height(),
            OverlordMsg::AggregatedVote(av) => av.get_height(),
            OverlordMsg::RichStatus(s) => s.height,
            OverlordMsg::SignedChoke(sc) => sc.choke.height,
            OverlordMsg::Stop => 0,
        }
    }
}

/// The reason of a view change.
#[derive(Clone, Copy, Debug, PartialEq, Eq, Structural)]
pub enum ViewChangeReason {
    /// No proposal came from the network.
    NoProposalFromNetwork,
    /// No prevote QC came from the network.
    NoPrevoteQCFromNetwork,
    /// No precommit QC came from the network.
    NoPrecommitQCFromNetwork,
    /// The block did not pass the check.
    CheckBlockNotPass,
    /// Update from a higher round prevote QC: from the first round to the second.
    UpdateFromHigherPrevoteQC(u64, u64),
    /// Update from a higher round precommit QC: from the first round to the second.
    UpdateFromHigherPrecommitQC(u64, u64),
    /// Update from a higher round choke QC: from the first round to the second.
    UpdateFromHigherChokeQC(u64, u64),
    /// The leader's count of votes of the type stayed below the threshold.
    LeaderReceivedVoteBelowThreshold(VoteType),
    /// Other reasons.
    Others,
}

} // verus!
