//! The collectors of proposals, votes and chokes.

use vstd::prelude::*;
use crate::byte_order::bytes_eq;
use crate::error::ConsensusError;
use crate::types::{
    Address, AggregatedChoke, AggregatedVote, SignedChoke, SignedProposal, SignedVote, VoteType,
};
use crate::utils::seq_find::{
    count_where, first_index, lemma_count_where_step, lemma_filter_step, lemma_first_index_is,
    lemma_first_index_none, lemma_put_elsewhere, lemma_put_found, put,
};

verus! {

/// The proposals of a height and round.
pub open spec fn proposal_at(height: u64, round: u64) -> spec_fn(SignedProposal) -> bool {
    |e: SignedProposal| e.proposal.height == height && e.proposal.round == round
}

/// The proposals of a height.
pub open spec fn proposal_of_height(height: u64) -> spec_fn(SignedProposal) -> bool {
    |e: SignedProposal| e.proposal.height == height
}

/// The proposals of every other height.
pub open spec fn proposal_off_height(height: u64) -> spec_fn(SignedProposal) -> bool {
    |e: SignedProposal| e.proposal.height != height
}

/// The proposals above a height.
pub open spec fn proposal_above(till: u64) -> spec_fn(SignedProposal) -> bool {
    |e: SignedProposal| e.proposal.height > till
}

/// The signed proposals that a replica holds: at most one for each height and round.
#[derive(Debug)]
pub struct ProposalCollector {
    /// The proposals, in the order in which they came.
    pub entries: Vec<SignedProposal>,
}

impl ProposalCollector {
    /// The proposal held for the height and round.
    pub open spec fn find(&self, height: u64, round: u64) -> Option<SignedProposal> {
        match first_index(self.entries@, proposal_at(height, round)) {
            Some(i) => Some(self.entries@[i]),
            None => None,
        }
    }

    /// A collector that holds nothing.
    pub fn new() -> (r: Self)
        ensures
            r.entries@.len() == 0,
    {
        ProposalCollector { entries: Vec::new() }
    }

    fn index_of(&self, height: u64, round: u64) -> (r: Option<usize>)
        ensures
            match r {
                Some(i) => first_index(self.entries@, proposal_at(height, round)) == Some(i as int)
                    && i < self.entries@.len(),
                None => first_index(self.entries@, proposal_at(height, round)) is None,
            },
    {
        let mut i: usize = 0;
        while i < self.entries.len()
            invariant
                i <= self.entries.len(),
                forall|k: int| 0 <= k < i ==> !proposal_at(height, round)(self.entries@[k]),
            decreases self.entries.len() - i,
        {
            if self.entries[i].proposal.height == height && self.entries[i].proposal.round
                == round {
                proof {
                    lemma_first_index_is(self.entries@, proposal_at(height, round), i as int);
                }
                return Some(i);
            }
            i += 1;
        }
        proof {
            lemma_first_index_none(self.entries@, proposal_at(height, round));
        }
        None
    }

    /// Takes in a proposal. Where one is held for its height and round already, nothing changes:
    /// a proposal for the same block is accepted again, one for another block is reported as a
    /// second proposal of that height and round.
    pub fn insert(&mut self, signed_proposal: SignedProposal) -> (res: Result<(), ConsensusError>)
        ensures
            match old(self).find(signed_proposal.proposal.height, signed_proposal.proposal.round) {
                Some(e) => {
                    &&& final(self).entries@ == old(self).entries@
                    &&& e.proposal.block_hash@ == signed_proposal.proposal.block_hash@ ==> res is Ok
                    &&& e.proposal.block_hash@ != signed_proposal.proposal.block_hash@ ==> res
                        == Err::<(), ConsensusError>(
                        ConsensusError::MultiProposal(
                            signed_proposal.proposal.height,
                            signed_proposal.proposal.round,
                        ),
                    )
                },
                None => final(self).entries@
                    == old(self).entries@.push(signed_proposal) && res is Ok,
            },
    {
        let height = signed_proposal.proposal.height;
        let round = signed_proposal.proposal.round;
        match self.index_of(height, round) {
            Some(i) => {
                if bytes_eq(&self.entries[i].proposal.block_hash,
                    &signed_proposal.proposal.block_hash) {
                    Ok(())
                } else {
                    Err(ConsensusError::MultiProposal(height, round))
                }
            },
            None => {
                self.entries.push(signed_proposal);
                Ok(())
            },
        }
    }

    /// A copy of the proposal held for the height and round.
    pub fn get(&self, height: u64, round: u64) -> (res: Result<SignedProposal, ConsensusError>)
        ensures
            match self.find(height, round) {
                Some(e) => res is Ok && res->Ok_0@ == e@,
                None => res matches Err(ConsensusError::StorageErr(_)),
            },
    {
        match self.index_of(height, round) {
            Some(i) => Ok(self.entries[i].clone()),
            None => Err(ConsensusError::StorageErr("no signed proposal".to_string())),
        }
    }

    /// Takes the proposals of the height out of the collector and hands them over, in the order in
    /// which they came; `None` where there is none.
    pub fn get_height_proposals(&mut self, height: u64) -> (res: Option<Vec<SignedProposal>>)
        ensures
            final(self).entries@ == old(self).entries@.filter(proposal_off_height(height)),
            match res {
                Some(v) => v@.len() > 0 && v@
                    == old(self).entries@.filter(proposal_of_height(height)),
                None => old(self).entries@.filter(proposal_of_height(height)).len() == 0,
            },
    {
        let mut taken: Vec<SignedProposal> = Vec::new();
        let mut i: usize = 0;
        let ghost mut j: int = 0;
        proof {
            assert(old(self).entries@.take(0).filter(proposal_off_height(height)) =~= Seq::empty());
            assert(old(self).entries@.take(0).filter(proposal_of_height(height)) =~= Seq::empty());
            assert(self.entries@.take(0) =~= Seq::empty());
            assert(self.entries@.skip(0) =~= old(self).entries@.skip(0));
        }
        while i < self.entries.len()
            invariant
                0 <= j <= old(self).entries@.len(),
                i <= self.entries@.len(),
                self.entries@.len() - i == old(self).entries@.len() - j,
                self.entries@.take(i as int) == old(self).entries@.take(j).filter(
                    proposal_off_height(height),
                ),
                taken@ == old(self).entries@.take(j).filter(proposal_of_height(height)),
                self.entries@.skip(i as int) == old(self).entries@.skip(j),
            decreases self.entries.len() - i,
        {
            proof {
                lemma_filter_step(old(self).entries@, proposal_off_height(height), j);
                lemma_filter_step(old(self).entries@, proposal_of_height(height), j);
                assert(self.entries@.skip(i as int)[0] == old(self).entries@.skip(j)[0]);
            }
            let ghost before = self.entries@;
            if self.entries[i].proposal.height == height {
                let e = self.entries.remove(i);
                taken.push(e);
                proof {
                    assert(self.entries@.take(i as int) =~= before.take(i as int));
                    assert(self.entries@.skip(i as int) =~= before.skip(i as int).skip(1));
                    assert(old(self).entries@.skip(j).skip(1) =~= old(self).entries@.skip(j + 1));
                    j = j + 1;
                }
            } else {
                proof {
                    assert(self.entries@.take(i + 1) =~= self.entries@.take(i as int).push(
                        self.entries@[i as int],
                    ));
                    assert(self.entries@.skip(i + 1) =~= before.skip(i as int).skip(1));
                    assert(old(self).entries@.skip(j).skip(1) =~= old(self).entries@.skip(j + 1));
                    j = j + 1;
                }
                i += 1;
            }
        }
        proof {
            assert(self.entries@.take(i as int) =~= self.entries@);
            assert(old(self).entries@.take(j) =~= old(self).entries@);
        }
        if taken.len() == 0 {
            None
        } else {
            Some(taken)
        }
    }

    /// Drops the proposals of the heights up to `till`.
    pub fn flush(&mut self, till: u64)
        ensures
            final(self).entries@ == old(self).entries@.filter(proposal_above(till)),
    {
        let mut i: usize = 0;
        let ghost mut j: int = 0;
        proof {
            assert(old(self).entries@.take(0).filter(proposal_above(till)) =~= Seq::empty());
            assert(self.entries@.take(0) =~= Seq::empty());
            assert(self.entries@.skip(0) =~= old(self).entries@.skip(0));
        }
        while i < self.entries.len()
            invariant
                0 <= j <= old(self).entries@.len(),
                i <= self.entries@.len(),
                self.entries@.len() - i == old(self).entries@.len() - j,
                self.entries@.take(i as int) == old(self).entries@.take(j).filter(
                    proposal_above(till),
                ),
                self.entries@.skip(i as int) == old(self).entries@.skip(j),
            decreases self.entries.len() - i,
        {
            proof {
                lemma_filter_step(old(self).entries@, proposal_above(till), j);
                assert(self.entries@.skip(i as int)[0] == old(self).entries@.skip(j)[0]);
            }
            let ghost before = self.entries@;
            if self.entries[i].proposal.height <= till {
                let _ = self.entries.remove(i);
                proof {
                    assert(self.entries@.take(i as int) =~= before.take(i as int));
                    assert(self.entries@.skip(i as int) =~= before.skip(i as int).skip(1));
                    assert(old(self).entries@.skip(j).skip(1) =~= old(self).entries@.skip(j + 1));
                    j = j + 1;
                }
            } else {
                proof {
                    assert(self.entries@.take(i + 1) =~= self.entries@.take(i as int).push(
                        self.entries@[i as int],
                    ));
                    assert(self.entries@.skip(i + 1) =~= before.skip(i as int).skip(1));
                    assert(old(self).entries@.skip(j).skip(1) =~= old(self).entries@.skip(j + 1));
                    j = j + 1;
                }
                i += 1;
            }
        }
        proof {
            assert(self.entries@.take(i as int) =~= self.entries@);
            assert(old(self).entries@.take(j) =~= old(self).entries@);
        }
    }
}

/// The votes of a height, round and type: of one slot.
pub open spec fn vote_in_slot(height: u64, round: u64, vote_type: VoteType) -> spec_fn(
    SignedVote,
) -> bool {
    |v: SignedVote| v.vote.height == height && v.vote.round == round && v.vote.vote_type
        == vote_type
}

/// The vote of a voter in a slot.
pub open spec fn vote_by(height: u64, round: u64, vote_type: VoteType, voter: Seq<u8>) -> spec_fn(
    SignedVote,
) -> bool {
    |v: SignedVote|
        v.vote.height == height && v.vote.round == round && v.vote.vote_type
            == vote_type && v.voter@
            == voter
}

/// The votes for a block hash in a slot.
pub open spec fn vote_for(height: u64, round: u64, vote_type: VoteType, hash: Seq<u8>) -> spec_fn(
    SignedVote,
) -> bool {
    |v: SignedVote|
        v.vote.height == height && v.vote.round == round && v.vote.vote_type == vote_type
            && v.vote.block_hash@ == hash
}

/// The votes of a height.
pub open spec fn vote_of_height(height: u64) -> spec_fn(SignedVote) -> bool {
    |v: SignedVote| v.vote.height == height
}

/// The votes of every other height.
pub open spec fn vote_off_height(height: u64) -> spec_fn(SignedVote) -> bool {
    |v: SignedVote| v.vote.height != height
}

/// The votes above a height.
pub open spec fn vote_above(till: u64) -> spec_fn(SignedVote) -> bool {
    |v: SignedVote| v.vote.height > till
}

/// The certificate of a slot.
pub open spec fn qc_at(height: u64, round: u64, vote_type: VoteType) -> spec_fn(
    AggregatedVote,
) -> bool {
    |q: AggregatedVote| q.height == height && q.round == round && q.vote_type == vote_type
}

/// The certificates of a type for a block hash at a height, whatever the round.
pub open spec fn qc_for(height: u64, hash: Seq<u8>, vote_type: VoteType) -> spec_fn(
    AggregatedVote,
) -> bool {
    |q: AggregatedVote| q.height == height && q.vote_type == vote_type && q.block_hash@ == hash
}

/// The certificates of a height.
pub open spec fn qc_of_height(height: u64) -> spec_fn(AggregatedVote) -> bool {
    |q: AggregatedVote| q.height == height
}

/// The certificates of every other height.
pub open spec fn qc_off_height(height: u64) -> spec_fn(AggregatedVote) -> bool {
    |q: AggregatedVote| q.height != height
}

/// The certificates above a height.
pub open spec fn qc_above(till: u64) -> spec_fn(AggregatedVote) -> bool {
    |q: AggregatedVote| q.height > till
}

/// One of the votes is for the block hash in the slot.
pub open spec fn has_vote_for(
    votes: Seq<SignedVote>,
    height: u64,
    round: u64,
    vote_type: VoteType,
    hash: Seq<u8>,
) -> bool {
    exists|k: int|
        0 <= k < votes.len() && vote_for(height, round, vote_type, hash)(#[trigger] votes[k])
}

/// The block hash is one of the list.
pub open spec fn names_hash(hashes: Seq<Vec<u8>>, hash: Seq<u8>) -> bool {
    exists|i: int| 0 <= i < hashes.len() && (#[trigger] hashes[i])@ == hash
}

/// The block hash is one of those that the votes are listed by.
pub open spec fn names_key(map: Seq<(Vec<u8>, Vec<Address>)>, hash: Seq<u8>) -> bool {
    exists|i: int| 0 <= i < map.len() && (#[trigger] map[i]).0@ == hash
}

/// The voters of the votes, in the order of the votes.
pub open spec fn voters_of(votes: Seq<SignedVote>) -> Seq<Seq<u8>> {
    Seq::new(votes.len(), |i: int| votes[i].voter@)
}

/// The second list holds copies of the votes of the first, in the same order.
pub open spec fn copies_of_votes(votes: Seq<SignedVote>, copies: Seq<SignedVote>) -> bool {
    &&& copies.len() == votes.len()
    &&& forall|i: int| 0 <= i < votes.len() ==> (#[trigger] copies[i])@ == votes[i]@
}

/// The two votes are of the same voter in the same slot.
pub open spec fn same_slot_voter(a: SignedVote, b: SignedVote) -> bool {
    &&& a.vote.height == b.vote.height
    &&& a.vote.round == b.vote.round
    &&& a.vote.vote_type == b.vote.vote_type
    &&& a.voter@ == b.voter@
}

/// No voter has two votes in one slot.
pub open spec fn distinct_voters(votes: Seq<SignedVote>) -> bool {
    forall|i: int, j: int| 0 <= i < j < votes.len() ==> !same_slot_voter(votes[i], votes[j])
}

/// Taking a vote out leaves the voters distinct.
pub proof fn lemma_remove_keeps_distinct(votes: Seq<SignedVote>, i: int)
    requires
        distinct_voters(votes),
        0 <= i < votes.len(),
    ensures
        distinct_voters(votes.remove(i)),
{
    let r = votes.remove(i);
    assert forall|a: int, b: int| 0 <= a < b < r.len() implies !same_slot_voter(r[a], r[b]) by {
        let a0 = if a < i { a } else { a + 1 };
        let b0 = if b < i { b } else { b + 1 };
        assert(r[a] == votes[a0]);
        assert(r[b] == votes[b0]);
    }
}

/// The signed votes and the quorum certificates that a replica holds. Of each voter it holds at
/// most one vote for each slot, the first that came, and for each slot at most one certificate,
/// the last that came.
#[derive(Debug)]
pub struct VoteCollector {
    /// The votes, in the order in which they came.
    pub votes: Vec<SignedVote>,
    /// The certificates, in the order in which they came.
    pub qcs: Vec<AggregatedVote>,
}

impl VoteCollector {
    /// No voter has two votes in one slot.
    pub open spec fn wf(&self) -> bool {
        distinct_voters(self.votes@)
    }

    /// The certificate held for the slot.
    pub open spec fn qc_by_id(&self, height: u64, round: u64, vote_type: VoteType) -> Option<
        AggregatedVote,
    > {
        match first_index(self.qcs@, qc_at(height, round, vote_type)) {
            Some(i) => Some(self.qcs@[i]),
            None => None,
        }
    }

    /// The first certificate held of the type for the block hash at the height.
    pub open spec fn qc_by_hash(&self, height: u64, hash: Seq<u8>, vote_type: VoteType) -> Option<
        AggregatedVote,
    > {
        match first_index(self.qcs@, qc_for(height, hash, vote_type)) {
            Some(i) => Some(self.qcs@[i]),
            None => None,
        }
    }

    /// Whether the voter has a vote in the slot.
    pub open spec fn has_voted(
        &self,
        height: u64,
        round: u64,
        vote_type: VoteType,
        voter: Seq<u8>,
    ) -> bool {
        first_index(self.votes@, vote_by(height, round, vote_type, voter)) is Some
    }

    /// A collector that holds nothing.
    pub fn new() -> (r: Self)
        ensures
            r.wf(),
            r.votes@.len() == 0,
            r.qcs@.len() == 0,
    {
        VoteCollector { votes: Vec::new(), qcs: Vec::new() }
    }

    /// Takes in a vote, unless its voter has a vote in its slot already.
    pub fn insert_vote(&mut self, vote: SignedVote)
        requires
            old(self).wf(),
        ensures
            final(self).wf(),
            final(self).qcs == old(self).qcs,
            final(self).votes@ == if old(self).has_voted(
                vote.vote.height,
                vote.vote.round,
                vote.vote.vote_type,
                vote.voter@,
            ) {
                old(self).votes@
            } else {
                old(self).votes@.push(vote)
            },
    {
        let ghost p = vote_by(vote.vote.height, vote.vote.round, vote.vote.vote_type, vote.voter@);
        let mut i: usize = 0;
        while i < self.votes.len()
            invariant
                self.votes == old(self).votes,
                self.wf(),
                i <= self.votes.len(),
                p == vote_by(vote.vote.height, vote.vote.round, vote.vote.vote_type, vote.voter@),
                forall|k: int| 0 <= k < i ==> !p(self.votes@[k]),
            decreases self.votes.len() - i,
        {
            let v = &self.votes[i];
            if v.vote.height == vote.vote.height && v.vote.round
                == vote.vote.round && v.vote.vote_type
                == vote.vote.vote_type && bytes_eq(&v.voter, &vote.voter) {
                proof {
                    lemma_first_index_is(self.votes@, p, i as int);
                }
                return ;
            }
            i += 1;
        }
        proof {
            lemma_first_index_none(self.votes@, p);
            assert forall|a: int,
                b: int| 0 <= a < b < self.votes@.push(vote).len() implies !same_slot_voter(
                self.votes@.push(vote)[a],
                self.votes@.push(vote)[b],
            ) by {
                if b == self.votes@.len() {
                    assert(!p(self.votes@[a]));
                } else {
                    assert(!same_slot_voter(self.votes@[a], self.votes@[b]));
                }
            }
        }
        self.votes.push(vote);
    }

    fn qc_index(&self, height: u64, round: u64, vote_type: VoteType) -> (r: Option<usize>)
        ensures
            match r {
                Some(i) => first_index(self.qcs@, qc_at(height, round, vote_type)) == Some(i as int)
                    && i < self.qcs@.len(),
                None => first_index(self.qcs@, qc_at(height, round, vote_type)) is None,
            },
    {
        let mut i: usize = 0;
        while i < self.qcs.len()
            invariant
                i <= self.qcs.len(),
                forall|k: int| 0 <= k < i ==> !qc_at(height, round, vote_type)(self.qcs@[k]),
            decreases self.qcs.len() - i,
        {
            let q = &self.qcs[i];
            if q.height == height && q.round == round && q.vote_type == vote_type {
                proof {
                    lemma_first_index_is(self.qcs@, qc_at(height, round, vote_type), i as int);
                }
                return Some(i);
            }
            i += 1;
        }
        proof {
            lemma_first_index_none(self.qcs@, qc_at(height, round, vote_type));
        }
        None
    }

    /// Takes in a certificate: it is held for its slot from now on, in the place of the one that
    /// was held for the slot, if one was.
    pub fn set_qc(&mut self, qc: AggregatedVote)
        ensures
            final(self).votes == old(self).votes,
            final(self).qcs@ == put(old(self).qcs@, qc_at(qc.height, qc.round, qc.vote_type), qc),
            final(self).qc_by_id(qc.height, qc.round, qc.vote_type) == Some(qc),
    {
        proof {
            lemma_put_found(self.qcs@, qc_at(qc.height, qc.round, qc.vote_type), qc);
        }
        match self.qc_index(qc.height, qc.round, qc.vote_type) {
            Some(i) => {
                self.qcs[i] = qc;
            },
            None => {
                self.qcs.push(qc);
            },
        }
    }

    /// A copy of the certificate held for the slot.
    pub fn get_qc_by_id(&self, height: u64, round: u64, vote_type: VoteType) -> (res: Result<
        AggregatedVote,
        ConsensusError,
    >)
        ensures
            match self.qc_by_id(height, round, vote_type) {
                Some(q) => res is Ok && res->Ok_0@ == q@,
                None => res matches Err(ConsensusError::StorageErr(_)),
            },
    {
        match self.qc_index(height, round, vote_type) {
            Some(i) => Ok(self.qcs[i].clone()),
            None => Err(ConsensusError::StorageErr("no quorum certificate".to_string())),
        }
    }

    /// A copy of the first certificate held of the type for the block hash at the height, whatever
    /// its round.
    pub fn get_qc_by_hash(&self, height: u64, hash: &Vec<u8>, vote_type: VoteType) -> (res: Option<
        AggregatedVote,
    >)
        ensures
            match self.qc_by_hash(height, hash@, vote_type) {
                Some(q) => res is Some && res->Some_0@ == q@,
                None => res is None,
            },
    {
        let mut i: usize = 0;
        while i < self.qcs.len()
            invariant
                i <= self.qcs.len(),
                forall|k: int| 0 <= k < i ==> !qc_for(height, hash@, vote_type)(self.qcs@[k]),
            decreases self.qcs.len() - i,
        {
            let q = &self.qcs[i];
            if q.height == height && q.vote_type == vote_type && bytes_eq(&q.block_hash, hash) {
                proof {
                    lemma_first_index_is(self.qcs@, qc_for(height, hash@, vote_type), i as int);
                }
                return Some(q.clone());
            }
            i += 1;
        }
        proof {
            lemma_first_index_none(self.qcs@, qc_for(height, hash@, vote_type));
        }
        None
    }

    /// Copies of the votes for the block hash in the slot, in the order in which they came. That
    /// there is none is an error.
    pub fn get_votes(&self, height: u64, round: u64, vote_type: VoteType, hash: &Vec<u8>) -> (res:
        Result<Vec<SignedVote>, ConsensusError>)
        ensures
            match res {
                Ok(v) => v@.len() > 0 && copies_of_votes(
                    self.votes@.filter(vote_for(height, round, vote_type, hash@)),
                    v@,
                ),
                Err(e) => e is StorageErr && self.votes@.filter(
                    vote_for(height, round, vote_type, hash@),
                ).len() == 0,
            },
    {
        let ghost p = vote_for(height, round, vote_type, hash@);
        let mut out: Vec<SignedVote> = Vec::new();
        let mut i: usize = 0;
        proof {
            assert(self.votes@.take(0).filter(p) =~= Seq::empty());
        }
        while i < self.votes.len()
            invariant
                i <= self.votes.len(),
                p == vote_for(height, round, vote_type, hash@),
                copies_of_votes(self.votes@.take(i as int).filter(p), out@),
            decreases self.votes.len() - i,
        {
            proof {
                lemma_filter_step(self.votes@, p, i as int);
            }
            let v = &self.votes[i];
            if v.vote.height == height && v.vote.round == round && v.vote.vote_type == vote_type
                && bytes_eq(&v.vote.block_hash, hash) {
                out.push(v.clone());
            }
            i += 1;
        }
        proof {
            assert(self.votes@.take(i as int) =~= self.votes@);
        }
        if out.len() == 0 {
            Err(ConsensusError::StorageErr("no votes".to_string()))
        } else {
            Ok(out)
        }
    }

    /// The number of votes held in the slot.
    pub fn vote_count(&self, height: u64, round: u64, vote_type: VoteType) -> (r: usize)
        ensures
            r == count_where(self.votes@, vote_in_slot(height, round, vote_type)),
    {
        let ghost p = vote_in_slot(height, round, vote_type);
        let mut n: usize = 0;
        let mut i: usize = 0;
        while i < self.votes.len()
            invariant
                i <= self.votes.len(),
                p == vote_in_slot(height, round, vote_type),
                n == count_where(self.votes@.take(i as int), p),
                n <= i,
            decreases self.votes.len() - i,
        {
            proof {
                lemma_count_where_step(self.votes@, p, i as int);
            }
            let v = &self.votes[i];
            if v.vote.height == height && v.vote.round == round && v.vote.vote_type == vote_type {
                n += 1;
            }
            i += 1;
        }
        proof {
            assert(self.votes@.take(i as int) =~= self.votes@);
        }
        n
    }

    /// The block hashes that the votes of the slot are for, each once, in the order in which the
    /// first vote for each came.
    fn slot_hashes(&self, height: u64, round: u64, vote_type: VoteType) -> (r: Vec<Vec<u8>>)
        ensures
            forall|i: int, j: int| 0 <= i < j < r@.len() ==> r@[i]@ != r@[j]@,
            forall|i: int|
                0 <= i < r@.len() ==> #[trigger] has_vote_for(
                    self.votes@,
                    height,
                    round,
                    vote_type,
                    r@[i]@,
                ),
            forall|k: int|
                0 <= k < self.votes@.len() && vote_in_slot(height, round, vote_type)(self.votes@[k])
                    ==> #[trigger] names_hash(r@, self.votes@[k].vote.block_hash@),
    {
        let mut hashes: Vec<Vec<u8>> = Vec::new();
        let mut k: usize = 0;
        while k < self.votes.len()
            invariant
                k <= self.votes.len(),
                forall|i: int, j: int| 0 <= i < j < hashes@.len() ==> hashes@[i]@ != hashes@[j]@,
                forall|i: int|
                    0 <= i < hashes@.len() ==> #[trigger] has_vote_for(
                        self.votes@,
                        height,
                        round,
                        vote_type,
                        hashes@[i]@,
                    ),
                forall|n: int|
                    0 <= n < k && vote_in_slot(height, round, vote_type)(self.votes@[n])
                        ==> #[trigger] names_hash(hashes@, self.votes@[n].vote.block_hash@),
            decreases self.votes.len() - k,
        {
            let v = &self.votes[k];
            if v.vote.height == height && v.vote.round == round && v.vote.vote_type == vote_type {
                let mut known = false;
                let mut i: usize = 0;
                while i < hashes.len()
                    invariant
                        i <= hashes.len(),
                        known ==> names_hash(hashes@, v.vote.block_hash@),
                        !known ==> forall|j: int| 0 <= j < i ==> hashes@[j]@ != v.vote.block_hash@,
                    decreases hashes.len() - i,
                {
                    if bytes_eq(&hashes[i], &v.vote.block_hash) {
                        known = true;
                    }
                    i += 1;
                }
                if !known {
                    let ghost before = hashes@;
                    hashes.push(v.vote.block_hash.clone());
                    proof {
                        let last = before.len() as int;
                        assert(hashes@[last]@ == v.vote.block_hash@);
                        assert(vote_for(height, round, vote_type, hashes@[last]@)(
                            self.votes@[k as int],
                        ));
                        assert forall|i: int| 0 <= i < hashes@.len() implies #[trigger] has_vote_for(
                            self.votes@,
                            height,
                            round,
                            vote_type,
                            hashes@[i]@,
                        ) by {
                            if i < last {
                                assert(hashes@[i] == before[i]);
                                assert(has_vote_for(
                                    self.votes@,
                                    height,
                                    round,
                                    vote_type,
                                    before[i]@,
                                ));
                            }
                        }
                        assert forall|n: int|
                            0 <= n < k + 1 && vote_in_slot(height, round, vote_type)(
                                self.votes@[n],
                            ) implies #[trigger] names_hash(
                            hashes@,
                            self.votes@[n].vote.block_hash@,
                        ) by {
                            if n < k {
                                assert(names_hash(before, self.votes@[n].vote.block_hash@));
                                let i = choose|i: int|
                                    0 <= i < before.len() && (#[trigger] before[i])@
                                        == self.votes@[n].vote.block_hash@;
                                assert(hashes@[i] == before[i]);
                            } else {
                                assert(hashes@[last]@ == self.votes@[n].vote.block_hash@);
                            }
                        }
                    }
                }
            }
            k += 1;
        }
        hashes
    }

    /// The voters of the votes for the block hash in the slot, in the order in which the votes
    /// came.
    fn slot_voters(&self, height: u64, round: u64, vote_type: VoteType, hash: &Vec<u8>) -> (r: Vec<
        Address,
    >)
        ensures
            r.deep_view() == voters_of(
                self.votes@.filter(vote_for(height, round, vote_type, hash@)),
            ),
    {
        let ghost p = vote_for(height, round, vote_type, hash@);
        let mut out: Vec<Address> = Vec::new();
        let mut i: usize = 0;
        proof {
            assert(self.votes@.take(0).filter(p) =~= Seq::empty());
            assert(out.deep_view() =~= voters_of(self.votes@.take(0).filter(p)));
        }
        while i < self.votes.len()
            invariant
                i <= self.votes.len(),
                p == vote_for(height, round, vote_type, hash@),
                out.deep_view() == voters_of(self.votes@.take(i as int).filter(p)),
            decreases self.votes.len() - i,
        {
            proof {
                lemma_filter_step(self.votes@, p, i as int);
            }
            let v = &self.votes[i];
            if v.vote.height == height && v.vote.round == round && v.vote.vote_type == vote_type
                && bytes_eq(&v.vote.block_hash, hash) {
                let ghost held = out;
                out.push(v.voter.clone());
                proof {
                    crate::types::lemma_byte_strings_view(held);
                    crate::types::lemma_byte_strings_view(out);
                    assert(out.deep_view() =~= held.deep_view().push(v.voter@));
                    assert(voters_of(self.votes@.take(i as int).filter(p).push(*v)) =~= voters_of(
                        self.votes@.take(i as int).filter(p),
                    ).push(v.voter@));
                }
            }
            i += 1;
        }
        proof {
            assert(self.votes@.take(i as int) =~= self.votes@);
        }
        out
    }

    /// The votes of the slot by block hash: each block hash that a vote of the slot is for, once,
    /// with the voters of the votes for it, in the order in which the votes came.
    pub fn get_vote_map(&self, height: u64, round: u64, vote_type: VoteType) -> (r: Vec<
        (Vec<u8>, Vec<Address>),
    >)
        ensures
            forall|i: int, j: int| 0 <= i < j < r@.len() ==> r@[i].0@ != r@[j].0@,
            forall|i: int|
                0 <= i < r@.len() ==> (#[trigger] r@[i]).1.deep_view() == voters_of(
                    self.votes@.filter(vote_for(height, round, vote_type, r@[i].0@)),
                ) && r@[i].1@.len() > 0,
            forall|k: int|
                0 <= k < self.votes@.len() && vote_in_slot(height, round, vote_type)(self.votes@[k])
                    ==> #[trigger] names_key(r@, self.votes@[k].vote.block_hash@),
    {
        let hashes = self.slot_hashes(height, round, vote_type);
        let mut map: Vec<(Vec<u8>, Vec<Address>)> = Vec::new();
        let mut i: usize = 0;
        while i < hashes.len()
            invariant
                i <= hashes.len(),
                map@.len() == i,
                forall|n: int| 0 <= n < i ==> (#[trigger] map@[n]).0@ == hashes@[n]@,
                forall|n: int|
                    0 <= n < i ==> (#[trigger] map@[n]).1.deep_view() == voters_of(
                        self.votes@.filter(vote_for(height, round, vote_type, map@[n].0@)),
                    ) && map@[n].1@.len() > 0,
                forall|n: int|
                    0 <= n < hashes@.len() ==> #[trigger] has_vote_for(
                        self.votes@,
                        height,
                        round,
                        vote_type,
                        hashes@[n]@,
                    ),
            decreases hashes.len() - i,
        {
            let voters = self.slot_voters(height, round, vote_type, &hashes[i]);
            proof {
                let p = vote_for(height, round, vote_type, hashes@[i as int]@);
                assert(has_vote_for(self.votes@, height, round, vote_type, hashes@[i as int]@));
                let k = choose|k: int| 0 <= k < self.votes@.len() && p(#[trigger] self.votes@[k]);
                broadcast use vstd::seq_lib::group_filter_ensures;
                assert(self.votes@.filter(p).contains(self.votes@[k]));
                crate::types::lemma_byte_strings_view(voters);
            }
            map.push((hashes[i].clone(), voters));
            i += 1;
        }
        proof {
            assert forall|k: int|
                0 <= k < self.votes@.len() && vote_in_slot(height, round, vote_type)(
                    self.votes@[k],
                ) implies #[trigger] names_key(map@, self.votes@[k].vote.block_hash@) by {
                assert(names_hash(hashes@, self.votes@[k].vote.block_hash@));
                let n = choose|n: int|
                    0 <= n < hashes@.len() && (#[trigger] hashes@[n])@
                        == self.votes@[k].vote.block_hash@;
                assert(map@[n].0@ == hashes@[n]@);
            }
        }
        map
    }

    /// Takes the votes and the certificates of the height out of the collector and hands them
    /// over, each in the order in which they came; `None` where there is neither.
    pub fn get_height_votes(&mut self, height: u64) -> (res: Option<
        (Vec<SignedVote>, Vec<AggregatedVote>),
    >)
        requires
            old(self).wf(),
        ensures
            final(self).wf(),
            final(self).votes@ == old(self).votes@.filter(vote_off_height(height)),
            final(self).qcs@ == old(self).qcs@.filter(qc_off_height(height)),
            match res {
                Some((votes, qcs)) => {
                    &&& votes@ == old(self).votes@.filter(vote_of_height(height))
                    &&& qcs@ == old(self).qcs@.filter(qc_of_height(height))
                    &&& votes@.len() + qcs@.len() > 0
                },
                None => {
                    &&& old(self).votes@.filter(vote_of_height(height)).len() == 0
                    &&& old(self).qcs@.filter(qc_of_height(height)).len() == 0
                },
            },
    {
        let mut taken: Vec<SignedVote> = Vec::new();
        let mut i: usize = 0;
        let ghost mut j: int = 0;
        proof {
            assert(old(self).votes@.take(0).filter(vote_off_height(height)) =~= Seq::empty());
            assert(old(self).votes@.take(0).filter(vote_of_height(height)) =~= Seq::empty());
            assert(self.votes@.take(0) =~= Seq::empty());
            assert(self.votes@.skip(0) =~= old(self).votes@.skip(0));
        }
        while i < self.votes.len()
            invariant
                self.qcs == old(self).qcs,
                self.wf(),
                0 <= j <= old(self).votes@.len(),
                i <= self.votes@.len(),
                self.votes@.len() - i == old(self).votes@.len() - j,
                self.votes@.take(i as int)
                    == old(self).votes@.take(j).filter(vote_off_height(height)),
                taken@ == old(self).votes@.take(j).filter(vote_of_height(height)),
                self.votes@.skip(i as int) == old(self).votes@.skip(j),
            decreases self.votes.len() - i,
        {
            proof {
                lemma_filter_step(old(self).votes@, vote_off_height(height), j);
                lemma_filter_step(old(self).votes@, vote_of_height(height), j);
                assert(self.votes@.skip(i as int)[0] == old(self).votes@.skip(j)[0]);
            }
            let ghost before = self.votes@;
            if self.votes[i].vote.height == height {
                let e = self.votes.remove(i);
                taken.push(e);
                proof {
                    lemma_remove_keeps_distinct(before, i as int);
                    assert(self.votes@.take(i as int) =~= before.take(i as int));
                    assert(self.votes@.skip(i as int) =~= before.skip(i as int).skip(1));
                    assert(old(self).votes@.skip(j).skip(1) =~= old(self).votes@.skip(j + 1));
                    j = j + 1;
                }
            } else {
                proof {
                    assert(self.votes@.take(i + 1) =~= self.votes@.take(i as int).push(
                        self.votes@[i as int],
                    ));
                    assert(self.votes@.skip(i + 1) =~= before.skip(i as int).skip(1));
                    assert(old(self).votes@.skip(j).skip(1) =~= old(self).votes@.skip(j + 1));
                    j = j + 1;
                }
                i += 1;
            }
        }
        proof {
            assert(self.votes@.take(i as int) =~= self.votes@);
            assert(old(self).votes@.take(j) =~= old(self).votes@);
        }
        let mut taken_qcs: Vec<AggregatedVote> = Vec::new();
        let mut i: usize = 0;
        let ghost mut j: int = 0;
        proof {
            assert(old(self).qcs@.take(0).filter(qc_off_height(height)) =~= Seq::empty());
            assert(old(self).qcs@.take(0).filter(qc_of_height(height)) =~= Seq::empty());
            assert(self.qcs@.take(0) =~= Seq::empty());
            assert(self.qcs@.skip(0) =~= old(self).qcs@.skip(0));
        }
        let ghost votes_now = self.votes@;
        while i < self.qcs.len()
            invariant
                self.votes@ == votes_now,
                0 <= j <= old(self).qcs@.len(),
                i <= self.qcs@.len(),
                self.qcs@.len() - i == old(self).qcs@.len() - j,
                self.qcs@.take(i as int) == old(self).qcs@.take(j).filter(qc_off_height(height)),
                taken_qcs@ == old(self).qcs@.take(j).filter(qc_of_height(height)),
                self.qcs@.skip(i as int) == old(self).qcs@.skip(j),
            decreases self.qcs.len() - i,
        {
            proof {
                lemma_filter_step(old(self).qcs@, qc_off_height(height), j);
                lemma_filter_step(old(self).qcs@, qc_of_height(height), j);
                assert(self.qcs@.skip(i as int)[0] == old(self).qcs@.skip(j)[0]);
            }
            let ghost before = self.qcs@;
            if self.qcs[i].height == height {
                let e = self.qcs.remove(i);
                taken_qcs.push(e);
                proof {
                    assert(self.qcs@.take(i as int) =~= before.take(i as int));
                    assert(self.qcs@.skip(i as int) =~= before.skip(i as int).skip(1));
                    assert(old(self).qcs@.skip(j).skip(1) =~= old(self).qcs@.skip(j + 1));
                    j = j + 1;
                }
            } else {
                proof {
                    assert(self.qcs@.take(i + 1) =~= self.qcs@.take(i as int).push(
                        self.qcs@[i as int],
                    ));
                    assert(self.qcs@.skip(i + 1) =~= before.skip(i as int).skip(1));
                    assert(old(self).qcs@.skip(j).skip(1) =~= old(self).qcs@.skip(j + 1));
                    j = j + 1;
                }
                i += 1;
            }
        }
        proof {
            assert(self.qcs@.take(i as int) =~= self.qcs@);
            assert(old(self).qcs@.take(j) =~= old(self).qcs@);
        }
        if taken.len() == 0 && taken_qcs.len() == 0 {
            None
        } else {
            Some((taken, taken_qcs))
        }
    }

    /// Drops the votes and the certificates of the heights up to `till`.
    pub fn flush(&mut self, till: u64)
        requires
            old(self).wf(),
        ensures
            final(self).wf(),
            final(self).votes@ == old(self).votes@.filter(vote_above(till)),
            final(self).qcs@ == old(self).qcs@.filter(qc_above(till)),
    {
        let mut i: usize = 0;
        let ghost mut j: int = 0;
        proof {
            assert(old(self).votes@.take(0).filter(vote_above(till)) =~= Seq::empty());
            assert(self.votes@.take(0) =~= Seq::empty());
            assert(self.votes@.skip(0) =~= old(self).votes@.skip(0));
        }
        while i < self.votes.len()
            invariant
                self.qcs == old(self).qcs,
                self.wf(),
                0 <= j <= old(self).votes@.len(),
                i <= self.votes@.len(),
                self.votes@.len() - i == old(self).votes@.len() - j,
                self.votes@.take(i as int) == old(self).votes@.take(j).filter(vote_above(till)),
                self.votes@.skip(i as int) == old(self).votes@.skip(j),
            decreases self.votes.len() - i,
        {
            proof {
                lemma_filter_step(old(self).votes@, vote_above(till), j);
                assert(self.votes@.skip(i as int)[0] == old(self).votes@.skip(j)[0]);
            }
            let ghost before = self.votes@;
            if self.votes[i].vote.height <= till {
                let _ = self.votes.remove(i);
                proof {
                    lemma_remove_keeps_distinct(before, i as int);
                    assert(self.votes@.take(i as int) =~= before.take(i as int));
                    assert(self.votes@.skip(i as int) =~= before.skip(i as int).skip(1));
                    assert(old(self).votes@.skip(j).skip(1) =~= old(self).votes@.skip(j + 1));
                    j = j + 1;
                }
            } else {
                proof {
                    assert(self.votes@.take(i + 1) =~= self.votes@.take(i as int).push(
                        self.votes@[i as int],
                    ));
                    assert(self.votes@.skip(i + 1) =~= before.skip(i as int).skip(1));
                    assert(old(self).votes@.skip(j).skip(1) =~= old(self).votes@.skip(j + 1));
                    j = j + 1;
                }
                i += 1;
            }
        }
        proof {
            assert(self.votes@.take(i as int) =~= self.votes@);
            assert(old(self).votes@.take(j) =~= old(self).votes@);
        }
        let mut i: usize = 0;
        let ghost mut j: int = 0;
        proof {
            assert(old(self).qcs@.take(0).filter(qc_above(till)) =~= Seq::empty());
            assert(self.qcs@.take(0) =~= Seq::empty());
            assert(self.qcs@.skip(0) =~= old(self).qcs@.skip(0));
        }
        let ghost votes_now = self.votes@;
        while i < self.qcs.len()
            invariant
                self.votes@ == votes_now,
                0 <= j <= old(self).qcs@.len(),
                i <= self.qcs@.len(),
                self.qcs@.len() - i == old(self).qcs@.len() - j,
                self.qcs@.take(i as int) == old(self).qcs@.take(j).filter(qc_above(till)),
                self.qcs@.skip(i as int) == old(self).qcs@.skip(j),
            decreases self.qcs.len() - i,
        {
            proof {
                lemma_filter_step(old(self).qcs@, qc_above(till), j);
                assert(self.qcs@.skip(i as int)[0] == old(self).qcs@.skip(j)[0]);
            }
            let ghost before = self.qcs@;
            if self.qcs[i].height <= till {
                let _ = self.qcs.remove(i);
                proof {
                    assert(self.qcs@.take(i as int) =~= before.take(i as int));
                    assert(self.qcs@.skip(i as int) =~= before.skip(i as int).skip(1));
                    assert(old(self).qcs@.skip(j).skip(1) =~= old(self).qcs@.skip(j + 1));
                    j = j + 1;
                }
            } else {
                proof {
                    assert(self.qcs@.take(i + 1) =~= self.qcs@.take(i as int).push(
                        self.qcs@[i as int],
                    ));
                    assert(self.qcs@.skip(i + 1) =~= before.skip(i as int).skip(1));
                    assert(old(self).qcs@.skip(j).skip(1) =~= old(self).qcs@.skip(j + 1));
                    j = j + 1;
                }
                i += 1;
            }
        }
        proof {
            assert(self.qcs@.take(i as int) =~= self.qcs@);
            assert(old(self).qcs@.take(j) =~= old(self).qcs@);
        }
    }
}

/// The chokes of a round.
pub open spec fn choke_in_round(round: u64) -> spec_fn(SignedChoke) -> bool {
    |c: SignedChoke| c.choke.round == round
}

/// The choke of a sender for a round.
pub open spec fn choke_by(round: u64, address: Seq<u8>) -> spec_fn(SignedChoke) -> bool {
    |c: SignedChoke| c.choke.round == round && c.address@ == address
}

/// The choke certificate that is held for a round.
pub open spec fn choke_qc_at(round: u64) -> spec_fn((u64, AggregatedChoke)) -> bool {
    |e: (u64, AggregatedChoke)| e.0 == round
}

/// The second list holds copies of the chokes of the first, in the same order.
pub open spec fn copies_of_chokes(chokes: Seq<SignedChoke>, copies: Seq<SignedChoke>) -> bool {
    &&& copies.len() == chokes.len()
    &&& forall|i: int| 0 <= i < chokes.len() ==> (#[trigger] copies[i])@ == chokes[i]@
}

/// Where some element is counted, there is one that meets the condition.
pub proof fn lemma_counted_exists<T>(s: Seq<T>, p: spec_fn(T) -> bool)
    requires
        count_where(s, p) > 0,
    ensures
        exists|k: int| 0 <= k < s.len() && p(#[trigger] s[k]),
    decreases s.len(),
{
    if p(s.last()) {
        assert(p(s[s.len() - 1]));
    } else {
        lemma_counted_exists(s.drop_last(), p);
        let k = choose|k: int| 0 <= k < s.drop_last().len() && p(#[trigger] s.drop_last()[k]);
        assert(s[k] == s.drop_last()[k]);
    }
}

/// The choke certificate that is held for the round among the certificates, each with the round
/// that it is held for.
#[verifier::opaque]
pub open spec fn choke_qc_in(qcs: Seq<(u64, AggregatedChoke)>, round: u64) -> Option<
    AggregatedChoke,
> {
    match first_index(qcs, choke_qc_at(round)) {
        Some(i) => Some(qcs[i].1),
        None => None,
    }
}

/// Setting the choke certificate of a round: afterwards it is the one found for the round, and
/// what is found for every other round is what was found before.
pub proof fn lemma_choke_qc_set(qcs: Seq<(u64, AggregatedChoke)>, round: u64, qc: AggregatedChoke)
    ensures
        choke_qc_in(put(qcs, choke_qc_at(round), (round, qc)), round) == Some(qc),
        forall|other: u64|
            other != round ==> #[trigger] choke_qc_in(
                put(qcs, choke_qc_at(round), (round, qc)),
                other,
            ) == choke_qc_in(qcs, other),
{
    reveal(choke_qc_in);
    lemma_put_found(qcs, choke_qc_at(round), (round, qc));
    assert forall|other: u64| other != round implies #[trigger] choke_qc_in(
        put(qcs, choke_qc_at(round), (round, qc)),
        other,
    ) == choke_qc_in(qcs, other) by {
        lemma_put_elsewhere(qcs, choke_qc_at(round), (round, qc), choke_qc_at(other));
    }
}

/// The signed chokes of the current height and the choke certificates made of them. Of each sender
/// the collector holds at most one choke for each round, the last that came, and for each round
/// at most one certificate, the last that was set.
#[derive(Debug)]
pub struct ChokeCollector {
    /// The chokes.
    pub chokes: Vec<SignedChoke>,
    /// The choke certificates, each with the round that it is held for.
    pub qcs: Vec<(u64, AggregatedChoke)>,
}

impl ChokeCollector {
    /// The number of chokes held for the round.
    pub open spec fn count(&self, round: u64) -> nat {
        count_where(self.chokes@, choke_in_round(round))
    }

    /// More than two thirds of `authority_len` senders have sent a choke for the round.
    pub open spec fn above_threshold(&self, round: u64, authority_len: nat) -> bool {
        self.count(round) * 3 > authority_len * 2
    }

    /// The choke certificate held for the round.
    pub open spec fn qc_of(&self, round: u64) -> Option<AggregatedChoke> {
        choke_qc_in(self.qcs@, round)
    }

    /// A collector that holds nothing.
    pub fn new() -> (r: Self)
        ensures
            r.chokes@.len() == 0,
            r.qcs@.len() == 0,
    {
        ChokeCollector { chokes: Vec::new(), qcs: Vec::new() }
    }

    /// The choke that is held of the sender for the round.
    pub open spec fn choke_of(&self, round: u64, address: Seq<u8>) -> Option<SignedChoke> {
        match first_index(self.chokes@, choke_by(round, address)) {
            Some(i) => Some(self.chokes@[i]),
            None => None,
        }
    }

    /// Takes in a choke: it is held of its sender for its round from now on, in the place of the
    /// one that was held, if one was.
    pub fn insert(&mut self, signed_choke: SignedChoke)
        ensures
            final(self).qcs == old(self).qcs,
            final(self).chokes@ == put(
                old(self).chokes@,
                choke_by(signed_choke.choke.round, signed_choke.address@),
                signed_choke,
            ),
            final(self).choke_of(signed_choke.choke.round, signed_choke.address@) == Some(
                signed_choke,
            ),
    {
        let ghost p = choke_by(signed_choke.choke.round, signed_choke.address@);
        proof {
            lemma_put_found(self.chokes@, p, signed_choke);
        }
        let mut i: usize = 0;
        while i < self.chokes.len()
            invariant
                self.chokes == old(self).chokes,
                self.qcs == old(self).qcs,
                i <= self.chokes.len(),
                p == choke_by(signed_choke.choke.round, signed_choke.address@),
                forall|k: int| 0 <= k < i ==> !p(self.chokes@[k]),
            decreases self.chokes.len() - i,
        {
            let c = &self.chokes[i];
            if c.choke.round == signed_choke.choke.round && bytes_eq(
                &c.address,
                &signed_choke.address,
            ) {
                proof {
                    lemma_first_index_is(self.chokes@, p, i as int);
                    lemma_put_found(self.chokes@, p, signed_choke);
                }
                self.chokes[i] = signed_choke;
                return ;
            }
            i += 1;
        }
        proof {
            lemma_first_index_none(self.chokes@, p);
        }
        self.chokes.push(signed_choke);
    }

    fn qc_index(&self, round: u64) -> (r: Option<usize>)
        ensures
            match r {
                Some(i) => first_index(self.qcs@, choke_qc_at(round)) == Some(i as int) && i
                    < self.qcs@.len(),
                None => first_index(self.qcs@, choke_qc_at(round)) is None,
            },
    {
        let mut i: usize = 0;
        while i < self.qcs.len()
            invariant
                i <= self.qcs.len(),
                forall|k: int| 0 <= k < i ==> !choke_qc_at(round)(self.qcs@[k]),
            decreases self.qcs.len() - i,
        {
            if self.qcs[i].0 == round {
                proof {
                    lemma_first_index_is(self.qcs@, choke_qc_at(round), i as int);
                }
                return Some(i);
            }
            i += 1;
        }
        proof {
            lemma_first_index_none(self.qcs@, choke_qc_at(round));
        }
        None
    }

    /// Sets the choke certificate that is held for a round, in the place of the one held for that
    /// round if there is one. The certificate is held for the round that is given, whatever round
    /// it names itself.
    pub fn set_qc(&mut self, round: u64, qc: AggregatedChoke)
        ensures
            final(self).chokes == old(self).chokes,
            final(self).qcs@ == put(old(self).qcs@, choke_qc_at(round), (round, qc)),
            final(self).qc_of(round) == Some(qc),
            forall|other: u64|
                other != round ==> #[trigger] final(self).qc_of(other) == old(self).qc_of(other),
    {
        proof {
            lemma_choke_qc_set(self.qcs@, round, qc);
        }
        match self.qc_index(round) {
            Some(i) => {
                self.qcs[i] = (round, qc);
            },
            None => {
                self.qcs.push((round, qc));
            },
        }
    }

    /// A copy of the choke certificate held for the round.
    pub fn get_qc(&self, round: u64) -> (res: Option<AggregatedChoke>)
        ensures
            match self.qc_of(round) {
                Some(q) => res is Some && res->Some_0@ == q@,
                None => res is None,
            },
    {
        reveal(choke_qc_in);
        match self.qc_index(round) {
            Some(i) => Some(self.qcs[i].1.clone()),
            None => None,
        }
    }

    /// Copies of the chokes held for the round, in the order in which they came; `None` where
    /// there is none.
    pub fn get_chokes(&self, round: u64) -> (res: Option<Vec<SignedChoke>>)
        ensures
            match res {
                Some(v) => v@.len() > 0 && copies_of_chokes(
                    self.chokes@.filter(choke_in_round(round)),
                    v@,
                ),
                None => self.chokes@.filter(choke_in_round(round)).len() == 0,
            },
    {
        let ghost p = choke_in_round(round);
        let mut out: Vec<SignedChoke> = Vec::new();
        let mut i: usize = 0;
        proof {
            assert(self.chokes@.take(0).filter(p) =~= Seq::empty());
        }
        while i < self.chokes.len()
            invariant
                i <= self.chokes.len(),
                p == choke_in_round(round),
                copies_of_chokes(self.chokes@.take(i as int).filter(p), out@),
            decreases self.chokes.len() - i,
        {
            proof {
                lemma_filter_step(self.chokes@, p, i as int);
            }
            if self.chokes[i].choke.round == round {
                out.push(self.chokes[i].clone());
            }
            i += 1;
        }
        proof {
            assert(self.chokes@.take(i as int) =~= self.chokes@);
        }
        if out.len() == 0 {
            None
        } else {
            Some(out)
        }
    }

    /// The number of chokes held for the round.
    pub fn count_round(&self, round: u64) -> (n: usize)
        ensures
            n == self.count(round),
    {
        let ghost p = choke_in_round(round);
        let mut n: usize = 0;
        let mut i: usize = 0;
        while i < self.chokes.len()
            invariant
                i <= self.chokes.len(),
                p == choke_in_round(round),
                n == count_where(self.chokes@.take(i as int), p),
                n <= i,
            decreases self.chokes.len() - i,
        {
            proof {
                lemma_count_where_step(self.chokes@, p, i as int);
            }
            if self.chokes[i].choke.round == round {
                n += 1;
            }
            i += 1;
        }
        proof {
            assert(self.chokes@.take(i as int) =~= self.chokes@);
        }
        n
    }

    /// The highest round for which more than two thirds of `authority_len` senders have sent a
    /// choke; `None` where no round has that many.
    pub fn max_round_above_threshold(&self, authority_len: usize) -> (res: Option<u64>)
        ensures
            match res {
                Some(r) => self.above_threshold(r, authority_len as nat) && forall|other: u64|
                    self.above_threshold(other, authority_len as nat) ==> other <= r,
                None => forall|other: u64| !self.above_threshold(other, authority_len as nat),
            },
    {
        let mut best: Option<u64> = None;
        let mut i: usize = 0;
        while i < self.chokes.len()
            invariant
                i <= self.chokes.len(),
                match best {
                    Some(b) => self.above_threshold(b, authority_len as nat) && forall|k: int|
                        0 <= k < i && self.above_threshold(
                            #[trigger] self.chokes@[k].choke.round,
                            authority_len as nat,
                        ) ==> self.chokes@[k].choke.round <= b,
                    None => forall|k: int|
                        0 <= k < i ==> !self.above_threshold(
                            #[trigger] self.chokes@[k].choke.round,
                            authority_len as nat,
                        ),
                },
            decreases self.chokes.len() - i,
        {
            let round = self.chokes[i].choke.round;
            let n = self.count_round(round);
            if (n as u128) * 3 > (authority_len as u128) * 2 {
                match best {
                    Some(b) => {
                        if round > b {
                            best = Some(round);
                        }
                    },
                    None => {
                        best = Some(round);
                    },
                }
            }
            i += 1;
        }
        proof {
            assert forall|other: u64| self.above_threshold(other,
                authority_len as nat) implies (match best {
                Some(b) => other <= b,
                None => false,
            }) by {
                lemma_counted_exists(self.chokes@, choke_in_round(other));
                let k = choose|k: int|
                    0 <= k < self.chokes@.len()
                        && choke_in_round(other)(#[trigger] self.chokes@[k]);
                assert(self.chokes@[k].choke.round == other);
            }
        }
        best
    }

    /// Forgets every choke and every choke certificate.
    pub fn clear(&mut self)
        ensures
            final(self).chokes@.len() == 0,
            final(self).qcs@.len() == 0,
    {
        self.chokes.clear();
        self.qcs.clear();
    }
}

} // verus!
