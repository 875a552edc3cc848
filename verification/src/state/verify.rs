//! What must be checked of a message of the current height before the state takes it in: whose
//! signature over what, and which aggregated signature of which voters.

use vstd::prelude::*;
use crate::error::ConsensusError;
use crate::state::process::State;
use crate::state::quorum::{bitmap_voters, bitmap_weight, is_quorum};
use crate::types::{
    Address, AggregatedSignature, AggregatedSignatureView, AggregatedVote, AggregatedVoteView,
    HashChoke, OverlordMsg, OverlordMsgView, Proposal, ProposalView, Signature, Vote, VoteView,
};

verus! {

/// What a signature is made over.
#[derive(Debug, PartialEq, Eq)]
pub enum Signed {
    /// A proposal.
    Proposal(Proposal),
    /// A vote.
    Vote(Vote),
    /// The height and round of a choke.
    Choke(HashChoke),
}

pub enum SignedView {
    Proposal(ProposalView),
    Vote(VoteView),
    Choke(HashChoke),
}

impl View for Signed {
    type V = SignedView;

    open spec fn view(&self) -> SignedView {
        match self {
            Signed::Proposal(p) => SignedView::Proposal(p@),
            Signed::Vote(v) => SignedView::Vote(v@),
            Signed::Choke(c) => SignedView::Choke(*c),
        }
    }
}

/// One thing to check of a message.
#[derive(Debug, PartialEq, Eq)]
pub enum Check {
    /// The signature must be the signer's signature of the payload.
    Signature { signature: Signature, payload: Signed, signer: Address },
    /// The aggregated signature must be that of the voters over the vote.
    Aggregate { aggregate: AggregatedSignature, vote: Vote, voters: Vec<Address> },
}

pub enum CheckView {
    Signature { signature: Seq<u8>, payload: SignedView, signer: Seq<u8> },
    Aggregate { aggregate: AggregatedSignatureView, vote: VoteView, voters: Seq<Seq<u8>> },
}

impl View for Check {
    type V = CheckView;

    open spec fn view(&self) -> CheckView {
        match self {
            Check::Signature { signature, payload, signer } => CheckView::Signature {
                signature: signature@,
                payload: payload@,
                signer: signer@,
            },
            Check::Aggregate { aggregate, vote, voters } => CheckView::Aggregate {
                aggregate: aggregate@,
                vote: vote@,
                voters: voters.deep_view(),
            },
        }
    }
}

/// The views of a list of checks, in the list's order.
pub open spec fn check_views(checks: Seq<Check>) -> Seq<CheckView> {
    Seq::new(checks.len(), |i: int| checks[i]@)
}

/// Why a message is refused before anything is checked.
pub enum Misfit {
    /// The proof of lock change of a proposal does not fit the proposal.
    Lock,
    /// The voters that the bitmap of a certificate marks weigh no more than two thirds of the
    /// authority list.
    Threshold,
}

impl Misfit {
    /// The error by which the state says why it refuses.
    pub open spec fn told_by(self, e: ConsensusError) -> bool {
        match self {
            Misfit::Lock => e is ProposalErr,
            Misfit::Threshold => e is AggregatedSignatureErr,
        }
    }
}

impl State {
    /// What to check of a quorum certificate: its bitmap must mark more than two thirds of the
    /// weight of the authority list, and its aggregated signature is to be checked against the
    /// voters that the bitmap marks, over the vote that the certificate certifies.
    pub open spec fn qc_check(&self, qc: AggregatedVoteView) -> Result<CheckView, Misfit> {
        if is_quorum(
            bitmap_weight(qc.signature.address_bitmap, self.authority.current@),
            self.authority.current@,
        ) {
            Ok(
                CheckView::Aggregate {
                    aggregate: qc.signature,
                    vote: qc.to_vote(),
                    voters: bitmap_voters(qc.signature.address_bitmap, self.authority.current@),
                },
            )
        } else {
            Err(Misfit::Threshold)
        }
    }

    /// What to check of a message. Of a signed proposal, a signed vote and a signed choke the
    /// sender's signature; of a quorum certificate what `qc_check` says. A proposal with a proof
    /// of lock change must fit it, and the certificate of the proof is checked after the
    /// proposer's signature. Of a rich status and of a stop nothing is checked.
    pub open spec fn checks_of(&self, msg: OverlordMsgView) -> Result<Seq<CheckView>, Misfit> {
        match msg {
            OverlordMsgView::SignedProposal(sp) => {
                let signed = CheckView::Signature {
                    signature: sp.signature,
                    payload: SignedView::Proposal(sp.proposal),
                    signer: sp.proposal.proposer,
                };
                if !sp.proposal.lock_fits() {
                    Err(Misfit::Lock)
                } else {
                    match sp.proposal.lock {
                        None => Ok(seq![signed]),
                        Some(polc) => match self.qc_check(polc.lock_votes) {
                            Ok(certified) => Ok(seq![signed, certified]),
                            Err(m) => Err(m),
                        },
                    }
                }
            },
            OverlordMsgView::SignedVote(sv) => Ok(
                seq![
                    CheckView::Signature {
                        signature: sv.signature,
                        payload: SignedView::Vote(sv.vote),
                        signer: sv.voter,
                    },
                ],
            ),
            OverlordMsgView::AggregatedVote(qc) => match self.qc_check(qc) {
                Ok(certified) => Ok(seq![certified]),
                Err(m) => Err(m),
            },
            OverlordMsgView::SignedChoke(sc) => Ok(
                seq![
                    CheckView::Signature {
                        signature: sc.signature,
                        payload: SignedView::Choke(
                            HashChoke { height: sc.choke.height, round: sc.choke.round },
                        ),
                        signer: sc.address,
                    },
                ],
            ),
            OverlordMsgView::RichStatus(_) => Ok(Seq::empty()),
            OverlordMsgView::Stop => Ok(Seq::empty()),
        }
    }

    /// Says what to check of a quorum certificate, or refuses it for its bitmap.
    pub fn check_qc(&self, qc: &AggregatedVote) -> (res: Result<Check, ConsensusError>)
        requires
            self.wf(),
        ensures
            match self.qc_check(qc@) {
                Ok(c) => res is Ok && res->Ok_0@ == c,
                Err(m) => res is Err && m.told_by(res->Err_0),
            },
    {
        if !self.authority.is_above_threshold(&qc.signature.address_bitmap) {
            return Err(
                ConsensusError::AggregatedSignatureErr("QC is not above threshold".to_string()),
            );
        }
        Ok(
            Check::Aggregate {
                aggregate: qc.signature.clone(),
                vote: qc.to_vote(),
                voters: self.authority.get_voters(&qc.signature.address_bitmap),
            },
        )
    }

    /// Says what to check of a message before the state takes it in, or refuses the message.
    pub fn checks_for(&self, msg: &OverlordMsg) -> (res: Result<Vec<Check>, ConsensusError>)
        requires
            self.wf(),
        ensures
            match self.checks_of(msg@) {
                Ok(checks) => res is Ok && check_views(res->Ok_0@) == checks,
                Err(m) => res is Err && m.told_by(res->Err_0),
            },
    {
        let mut checks: Vec<Check> = Vec::new();
        match msg {
            OverlordMsg::SignedProposal(sp) => {
                if !sp.proposal.lock_fits() {
                    return Err(
                        ConsensusError::ProposalErr(
                            "the proof of lock change does not fit the proposal".to_string(),
                        ),
                    );
                }
                checks.push(
                    Check::Signature {
                        signature: sp.signature.clone(),
                        payload: Signed::Proposal(sp.proposal.clone()),
                        signer: sp.proposal.proposer.clone(),
                    },
                );
                match &sp.proposal.lock {
                    Some(polc) => {
                        let certified = self.check_qc(&polc.lock_votes)?;
                        checks.push(certified);
                        assert(check_views(checks@) =~= seq![checks@[0]@, checks@[1]@]);
                    },
                    None => {
                        assert(check_views(checks@) =~= seq![checks@[0]@]);
                    },
                }
            },
            OverlordMsg::SignedVote(sv) => {
                checks.push(
                    Check::Signature {
                        signature: sv.signature.clone(),
                        payload: Signed::Vote(sv.vote.clone()),
                        signer: sv.voter.clone(),
                    },
                );
                assert(check_views(checks@) =~= seq![checks@[0]@]);
            },
            OverlordMsg::AggregatedVote(qc) => {
                let certified = self.check_qc(qc)?;
                checks.push(certified);
                assert(check_views(checks@) =~= seq![checks@[0]@]);
            },
            OverlordMsg::SignedChoke(sc) => {
                checks.push(
                    Check::Signature {
                        signature: sc.signature.clone(),
                        payload: Signed::Choke(sc.choke.to_hash()),
                        signer: sc.address.clone(),
                    },
                );
                assert(check_views(checks@) =~= seq![checks@[0]@]);
            },
            OverlordMsg::RichStatus(_) => {
                assert(check_views(checks@) =~= Seq::<CheckView>::empty());
            },
            OverlordMsg::Stop => {
                assert(check_views(checks@) =~= Seq::<CheckView>::empty());
            },
        }
        Ok(checks)
    }
}

} // verus!
