//! The messages on the wire. Every value is the list of its fields, in a fixed order. A value
//! with an optional lock begins with a flag that says whether the lock is there. A vote type and
//! a step are lists of one number. The content of a block is a list of numbers of 8 bits.

use vstd::prelude::*;
use crate::DurationConfig;
use crate::codec::rlp::{
    enc_bool, enc_bytes, enc_bytes_list, enc_each_bytes, enc_each_u8, enc_list, enc_u8_list,
    enc_uint, lemma_take_bool, lemma_take_bytes, lemma_take_bytes_list, lemma_take_consumes,
    lemma_take_framed, lemma_take_u32, lemma_take_u64, lemma_take_u8, lemma_take_u8_list, put_bytes,
    put_u32, put_u64, put_u8, read_bool, read_bytes, read_bytes_list, read_payload, read_u32,
    read_u64, read_u8, read_u8_list, reads, take, take_bool, take_bytes, take_bytes_list,
    take_u32_spec, take_u64_spec, take_u8_list, take_u8_spec, write_bool, write_bytes_list,
    write_list, write_u8_list, DecodeError,
};
use crate::smr::smr_types::Step;
use crate::types::{
    node_views, AggregatedChoke, AggregatedChokeView, AggregatedSignature, AggregatedSignatureView,
    AggregatedVote, AggregatedVoteView, Choke, ChokeView, Commit, CommitView, Node, NodeView, PoLC,
    PoLCView, Proof, ProofView, Proposal, ProposalView, SignedChoke, SignedChokeView,
    SignedProposal, SignedProposalView, SignedVote, SignedVoteView, Status, StatusView, UpdateFrom,
    UpdateFromView, Vote, VoteType, VoteView,
};
use crate::wal::wal_type::{WalInfo, WalInfoView, WalLock, WalLockView};

verus! {

/// The vote type for a number, if the number stands for one.
pub open spec fn vote_type_of(code: u8) -> Result<VoteType, DecodeError> {
        if code == 1 {
            Ok(VoteType::Prevote)
        } else if code == 2 {
            Ok(VoteType::Precommit)
        } else {
            Err(DecodeError::InvalidVoteType)
        }
}

/// The fields of a vote type on the wire: its number.
pub open spec fn payload_vote_type(v: VoteType) -> Seq<u8> {
    enc_uint(v.code() as nat) + (Seq::<u8>::empty())
}

/// A vote type on the wire: the list of its number.
pub open spec fn enc_vote_type(v: VoteType) -> Seq<u8> {
    enc_list(payload_vote_type(v))
}

/// Takes a vote type from the start of the input. A number that stands for none is an error.
pub open spec fn dec_vote_type(buf: Seq<u8>) -> Result<(VoteType, Seq<u8>), DecodeError> {
    match take(buf, true) {
        Err(e) => Err(e),
        Ok((payload, rest)) => match take_u8_spec(payload) {
            Err(e) => Err(e),
            Ok((code, _)) => match vote_type_of(code) {
                Err(e) => Err(e),
                Ok(v) => Ok((v, rest)),
            },
        },
    }
}

/// A vote type is read back as it was written.
pub proof fn lemma_vote_type_round_trip(v: VoteType, rest: Seq<u8>)
    ensures
        dec_vote_type(enc_vote_type(v) + rest) == Ok::<(VoteType, Seq<u8>), DecodeError>((v, rest)),
{
    let p = payload_vote_type(v);
    crate::codec::rlp::lemma_be_bytes_width(v.code() as nat);
    assert(p.len() <= 2);
    lemma_take_framed(true, p, rest);
    lemma_take_u8(v.code(), Seq::<u8>::empty());
}

impl VoteType {
    /// Appends the value as it stands on the wire.
    pub fn encode_to(&self, out: &mut Vec<u8>)
        ensures
            final(out)@ == old(out)@ + enc_vote_type(*self),
    {
        let mut payload: Vec<u8> = Vec::new();
        put_u8(&mut payload, self.to_u8());
        assert(payload@ =~= payload_vote_type(*self));
        write_list(out, &payload);
    }

    /// The value as it stands on the wire.
    pub fn encode(&self) -> (r: Vec<u8>)
        ensures
            r@ == enc_vote_type(*self),
    {
        let mut out: Vec<u8> = Vec::new();
        self.encode_to(&mut out);
        assert(out@ =~= enc_vote_type(*self));
        out
    }

    /// Reads a value from the start of the input and hands it back with the rest of the input.
    pub fn decode_from<'a>(buf: &'a [u8]) -> (res: Result<(VoteType, &'a [u8]), DecodeError>)
        ensures
            reads(res, dec_vote_type(buf@)),
    {
        let (p, rest) = read_payload(buf, true)?;
        let (code, _) = read_u8(p)?;
        if code == 1 {
            Ok((VoteType::Prevote, rest))
        } else if code == 2 {
            Ok((VoteType::Precommit, rest))
        } else {
            Err(DecodeError::InvalidVoteType)
        }
    }

    /// Reads a value from the start of the input. What follows the value is not looked at.
    pub fn decode(buf: &[u8]) -> (res: Result<VoteType, DecodeError>)
        ensures
            match dec_vote_type(buf@) {
                Ok((v, _)) => res is Ok && res->Ok_0 == v,
                Err(e) => res is Err && res->Err_0 == e,
            },
    {
        let (v, _) = VoteType::decode_from(buf)?;
        Ok(v)
    }
}

/// The step for a number, if the number stands for one.
pub open spec fn step_of(code: u8) -> Result<Step, DecodeError> {
        if code == 0 {
            Ok(Step::Propose)
        } else if code == 1 {
            Ok(Step::Prevote)
        } else if code == 2 {
            Ok(Step::Precommit)
        } else if code == 3 {
            Ok(Step::Brake)
        } else if code == 4 {
            Ok(Step::Commit)
        } else {
            Err(DecodeError::InvalidStep)
        }
}

/// The fields of a step on the wire: its number.
pub open spec fn payload_step(v: Step) -> Seq<u8> {
    enc_uint(v.code() as nat) + (Seq::<u8>::empty())
}

/// A step on the wire: the list of its number.
pub open spec fn enc_step(v: Step) -> Seq<u8> {
    enc_list(payload_step(v))
}

/// Takes a step from the start of the input. A number that stands for none is an error.
pub open spec fn dec_step(buf: Seq<u8>) -> Result<(Step, Seq<u8>), DecodeError> {
    match take(buf, true) {
        Err(e) => Err(e),
        Ok((payload, rest)) => match take_u8_spec(payload) {
            Err(e) => Err(e),
            Ok((code, _)) => match step_of(code) {
                Err(e) => Err(e),
                Ok(v) => Ok((v, rest)),
            },
        },
    }
}

/// A step is read back as it was written.
pub proof fn lemma_step_round_trip(v: Step, rest: Seq<u8>)
    ensures
        dec_step(enc_step(v) + rest) == Ok::<(Step, Seq<u8>), DecodeError>((v, rest)),
{
    let p = payload_step(v);
    crate::codec::rlp::lemma_be_bytes_width(v.code() as nat);
    assert(p.len() <= 2);
    lemma_take_framed(true, p, rest);
    lemma_take_u8(v.code(), Seq::<u8>::empty());
}

impl Step {
    /// Appends the value as it stands on the wire.
    pub fn encode_to(&self, out: &mut Vec<u8>)
        ensures
            final(out)@ == old(out)@ + enc_step(*self),
    {
        let mut payload: Vec<u8> = Vec::new();
        put_u8(&mut payload, self.to_u8());
        assert(payload@ =~= payload_step(*self));
        write_list(out, &payload);
    }

    /// The value as it stands on the wire.
    pub fn encode(&self) -> (r: Vec<u8>)
        ensures
            r@ == enc_step(*self),
    {
        let mut out: Vec<u8> = Vec::new();
        self.encode_to(&mut out);
        assert(out@ =~= enc_step(*self));
        out
    }

    /// Reads a value from the start of the input and hands it back with the rest of the input.
    pub fn decode_from<'a>(buf: &'a [u8]) -> (res: Result<(Step, &'a [u8]), DecodeError>)
        ensures
            reads(res, dec_step(buf@)),
    {
        let (p, rest) = read_payload(buf, true)?;
        let (code, _) = read_u8(p)?;
        if code == 0 {
            Ok((Step::Propose, rest))
        } else if code == 1 {
            Ok((Step::Prevote, rest))
        } else if code == 2 {
            Ok((Step::Precommit, rest))
        } else if code == 3 {
            Ok((Step::Brake, rest))
        } else if code == 4 {
            Ok((Step::Commit, rest))
        } else {
            Err(DecodeError::InvalidStep)
        }
    }

    /// Reads a value from the start of the input. What follows the value is not looked at.
    pub fn decode(buf: &[u8]) -> (res: Result<Step, DecodeError>)
        ensures
            match dec_step(buf@) {
                Ok((v, _)) => res is Ok && res->Ok_0 == v,
                Err(e) => res is Err && res->Err_0 == e,
            },
    {
        let (v, _) = Step::decode_from(buf)?;
        Ok(v)
    }
}

/// The fields of an aggregated signature on the wire, one after the other.
pub open spec fn payload_aggregated_signature(v: AggregatedSignatureView) -> Seq<u8> {
    enc_bytes(v.signature) + (enc_bytes(v.address_bitmap) + (Seq::<u8>::empty()))
}

/// An aggregated signature on the wire: the list of its fields.
pub open spec fn enc_aggregated_signature(v: AggregatedSignatureView) -> Seq<u8> {
    enc_list(payload_aggregated_signature(v))
}

/// Takes the fields of an aggregated signature from a payload.
pub open spec fn fields_aggregated_signature(p: Seq<u8>)
    -> Result<AggregatedSignatureView, DecodeError> {
    match take_bytes(p) {
        Err(e) => Err(e),
        Ok((signature, r1)) => match take_bytes(r1) {
            Err(e) => Err(e),
            Ok((address_bitmap, r2)) => Ok(AggregatedSignatureView { signature, address_bitmap }),
        },
    }
}

/// Takes an aggregated signature from the start of the input.
pub open spec fn dec_aggregated_signature(buf: Seq<u8>)
    -> Result<(AggregatedSignatureView, Seq<u8>), DecodeError> {
    match take(buf, true) {
        Err(e) => Err(e),
        Ok((payload, rest)) => match fields_aggregated_signature(payload) {
            Err(e) => Err(e),
            Ok(v) => Ok((v, rest)),
        },
    }
}

/// An aggregated signature is read back as it was written.
pub proof fn lemma_aggregated_signature_round_trip(v: AggregatedSignatureView, rest: Seq<u8>)
    requires
        enc_aggregated_signature(v).len() <= usize::MAX,
    ensures
        dec_aggregated_signature(enc_aggregated_signature(v)
            + rest) == Ok::<(AggregatedSignatureView, Seq<u8>), DecodeError>((v, rest)),
{
    let p = payload_aggregated_signature(v);
    lemma_take_framed(true, p, rest);
    assert(v.signature.len() <= enc_bytes(v.signature).len());
    lemma_take_bytes(v.signature, enc_bytes(v.address_bitmap) + (Seq::<u8>::empty()));
    assert(v.address_bitmap.len() <= enc_bytes(v.address_bitmap).len());
    lemma_take_bytes(v.address_bitmap, Seq::<u8>::empty());
    assert(fields_aggregated_signature(p) == Ok::<AggregatedSignatureView, DecodeError>(v));
}

impl AggregatedSignature {
    /// Appends the value as it stands on the wire.
    pub fn encode_to(&self, out: &mut Vec<u8>)
        ensures
            final(out)@ == old(out)@ + enc_aggregated_signature(self@),
    {
        let mut payload: Vec<u8> = Vec::new();
        put_bytes(&mut payload, self.signature.as_slice());
        put_bytes(&mut payload, self.address_bitmap.as_slice());
        assert(payload@ =~= payload_aggregated_signature(self@));
        write_list(out, &payload);
    }

    /// The value as it stands on the wire.
    pub fn encode(&self) -> (r: Vec<u8>)
        ensures
            r@ == enc_aggregated_signature(self@),
    {
        let mut out: Vec<u8> = Vec::new();
        self.encode_to(&mut out);
        assert(out@ =~= enc_aggregated_signature(self@));
        out
    }

    /// Reads a value from the start of the input and hands it back with the rest of the input.
    pub fn decode_from<'a>(buf: &'a [u8])
        -> (res: Result<(AggregatedSignature, &'a [u8]), DecodeError>)
        ensures
            reads(res, dec_aggregated_signature(buf@)),
    {
        let (p, rest) = read_payload(buf, true)?;
        let (signature, p) = read_bytes(p)?;
        let (address_bitmap, p) = read_bytes(p)?;
        Ok((AggregatedSignature { signature, address_bitmap }, rest))
    }

    /// Reads a value from the start of the input. What follows the value is not looked at.
    pub fn decode(buf: &[u8]) -> (res: Result<AggregatedSignature, DecodeError>)
        ensures
            match dec_aggregated_signature(buf@) {
                Ok((v, _)) => res is Ok && res->Ok_0@ == v,
                Err(e) => res is Err && res->Err_0 == e,
            },
    {
        let (v, _) = AggregatedSignature::decode_from(buf)?;
        Ok(v)
    }
}

/// The fields of an aggregated vote on the wire, one after the other.
pub open spec fn payload_aggregated_vote(v: AggregatedVoteView) -> Seq<u8> {
    enc_aggregated_signature(v.signature) + (enc_vote_type(v.vote_type)
        + (enc_uint(v.height as nat) + (enc_uint(v.round as nat) + (enc_bytes(v.block_hash)
        + (enc_bytes(v.leader) + (Seq::<u8>::empty()))))))
}

/// An aggregated vote on the wire: the list of its fields.
pub open spec fn enc_aggregated_vote(v: AggregatedVoteView) -> Seq<u8> {
    enc_list(payload_aggregated_vote(v))
}

/// Takes the fields of an aggregated vote from a payload.
pub open spec fn fields_aggregated_vote(p: Seq<u8>) -> Result<AggregatedVoteView, DecodeError> {
    match dec_aggregated_signature(p) {
        Err(e) => Err(e),
        Ok((signature, r1)) => match dec_vote_type(r1) {
            Err(e) => Err(e),
            Ok((vote_type, r2)) => match take_u64_spec(r2) {
                Err(e) => Err(e),
                Ok((height, r3)) => match take_u64_spec(r3) {
                    Err(e) => Err(e),
                    Ok((round, r4)) => match take_bytes(r4) {
                        Err(e) => Err(e),
                        Ok((block_hash, r5)) => match take_bytes(r5) {
                            Err(e) => Err(e),
                            Ok((leader, r6)) => Ok(AggregatedVoteView { signature, vote_type,
                                height, round, block_hash, leader }),
                        },
                    },
                },
            },
        },
    }
}

/// Takes an aggregated vote from the start of the input.
pub open spec fn dec_aggregated_vote(buf: Seq<u8>)
    -> Result<(AggregatedVoteView, Seq<u8>), DecodeError> {
    match take(buf, true) {
        Err(e) => Err(e),
        Ok((payload, rest)) => match fields_aggregated_vote(payload) {
            Err(e) => Err(e),
            Ok(v) => Ok((v, rest)),
        },
    }
}

/// An aggregated vote is read back as it was written.
pub proof fn lemma_aggregated_vote_round_trip(v: AggregatedVoteView, rest: Seq<u8>)
    requires
        enc_aggregated_vote(v).len() <= usize::MAX,
    ensures
        dec_aggregated_vote(enc_aggregated_vote(v)
            + rest) == Ok::<(AggregatedVoteView, Seq<u8>), DecodeError>((v, rest)),
{
    let p = payload_aggregated_vote(v);
    lemma_take_framed(true, p, rest);
    lemma_aggregated_signature_round_trip(v.signature, enc_vote_type(v.vote_type)
        + (enc_uint(v.height as nat) + (enc_uint(v.round as nat) + (enc_bytes(v.block_hash)
        + (enc_bytes(v.leader) + (Seq::<u8>::empty()))))));
    lemma_vote_type_round_trip(v.vote_type, enc_uint(v.height as nat)
        + (enc_uint(v.round as nat) + (enc_bytes(v.block_hash) + (enc_bytes(v.leader)
        + (Seq::<u8>::empty())))));
    lemma_take_u64(v.height, enc_uint(v.round as nat) + (enc_bytes(v.block_hash)
        + (enc_bytes(v.leader) + (Seq::<u8>::empty()))));
    lemma_take_u64(v.round, enc_bytes(v.block_hash) + (enc_bytes(v.leader) + (Seq::<u8>::empty())));
    assert(v.block_hash.len() <= enc_bytes(v.block_hash).len());
    lemma_take_bytes(v.block_hash, enc_bytes(v.leader) + (Seq::<u8>::empty()));
    assert(v.leader.len() <= enc_bytes(v.leader).len());
    lemma_take_bytes(v.leader, Seq::<u8>::empty());
    assert(fields_aggregated_vote(p) == Ok::<AggregatedVoteView, DecodeError>(v));
}

impl AggregatedVote {
    /// Appends the value as it stands on the wire.
    pub fn encode_to(&self, out: &mut Vec<u8>)
        ensures
            final(out)@ == old(out)@ + enc_aggregated_vote(self@),
    {
        let mut payload: Vec<u8> = Vec::new();
        self.signature.encode_to(&mut payload);
        self.vote_type.encode_to(&mut payload);
        put_u64(&mut payload, self.height);
        put_u64(&mut payload, self.round);
        put_bytes(&mut payload, self.block_hash.as_slice());
        put_bytes(&mut payload, self.leader.as_slice());
        assert(payload@ =~= payload_aggregated_vote(self@));
        write_list(out, &payload);
    }

    /// The value as it stands on the wire.
    pub fn encode(&self) -> (r: Vec<u8>)
        ensures
            r@ == enc_aggregated_vote(self@),
    {
        let mut out: Vec<u8> = Vec::new();
        self.encode_to(&mut out);
        assert(out@ =~= enc_aggregated_vote(self@));
        out
    }

    /// Reads a value from the start of the input and hands it back with the rest of the input.
    pub fn decode_from<'a>(buf: &'a [u8]) -> (res: Result<(AggregatedVote, &'a [u8]), DecodeError>)
        ensures
            reads(res, dec_aggregated_vote(buf@)),
    {
        let (p, rest) = read_payload(buf, true)?;
        let (signature, p) = AggregatedSignature::decode_from(p)?;
        let (vote_type, p) = VoteType::decode_from(p)?;
        let (height, p) = read_u64(p)?;
        let (round, p) = read_u64(p)?;
        let (block_hash, p) = read_bytes(p)?;
        let (leader, p) = read_bytes(p)?;
        Ok((AggregatedVote { signature, vote_type, height, round, block_hash, leader }, rest))
    }

    /// Reads a value from the start of the input. What follows the value is not looked at.
    pub fn decode(buf: &[u8]) -> (res: Result<AggregatedVote, DecodeError>)
        ensures
            match dec_aggregated_vote(buf@) {
                Ok((v, _)) => res is Ok && res->Ok_0@ == v,
                Err(e) => res is Err && res->Err_0 == e,
            },
    {
        let (v, _) = AggregatedVote::decode_from(buf)?;
        Ok(v)
    }
}

/// The fields of a vote on the wire, one after the other.
pub open spec fn payload_vote(v: VoteView) -> Seq<u8> {
    enc_uint(v.height as nat) + (enc_uint(v.round as nat) + (enc_vote_type(v.vote_type)
        + (enc_bytes(v.block_hash) + (Seq::<u8>::empty()))))
}

/// A vote on the wire: the list of its fields.
pub open spec fn enc_vote(v: VoteView) -> Seq<u8> {
    enc_list(payload_vote(v))
}

/// Takes the fields of a vote from a payload.
pub open spec fn fields_vote(p: Seq<u8>) -> Result<VoteView, DecodeError> {
    match take_u64_spec(p) {
        Err(e) => Err(e),
        Ok((height, r1)) => match take_u64_spec(r1) {
            Err(e) => Err(e),
            Ok((round, r2)) => match dec_vote_type(r2) {
                Err(e) => Err(e),
                Ok((vote_type, r3)) => match take_bytes(r3) {
                    Err(e) => Err(e),
                    Ok((block_hash, r4)) => Ok(VoteView { height, round, vote_type, block_hash }),
                },
            },
        },
    }
}

/// Takes a vote from the start of the input.
pub open spec fn dec_vote(buf: Seq<u8>) -> Result<(VoteView, Seq<u8>), DecodeError> {
    match take(buf, true) {
        Err(e) => Err(e),
        Ok((payload, rest)) => match fields_vote(payload) {
            Err(e) => Err(e),
            Ok(v) => Ok((v, rest)),
        },
    }
}

/// A vote is read back as it was written.
pub proof fn lemma_vote_round_trip(v: VoteView, rest: Seq<u8>)
    requires
        enc_vote(v).len() <= usize::MAX,
    ensures
        dec_vote(enc_vote(v) + rest) == Ok::<(VoteView, Seq<u8>), DecodeError>((v, rest)),
{
    let p = payload_vote(v);
    lemma_take_framed(true, p, rest);
    lemma_take_u64(v.height, enc_uint(v.round as nat) + (enc_vote_type(v.vote_type)
        + (enc_bytes(v.block_hash) + (Seq::<u8>::empty()))));
    lemma_take_u64(v.round, enc_vote_type(v.vote_type) + (enc_bytes(v.block_hash)
        + (Seq::<u8>::empty())));
    lemma_vote_type_round_trip(v.vote_type, enc_bytes(v.block_hash) + (Seq::<u8>::empty()));
    assert(v.block_hash.len() <= enc_bytes(v.block_hash).len());
    lemma_take_bytes(v.block_hash, Seq::<u8>::empty());
    assert(fields_vote(p) == Ok::<VoteView, DecodeError>(v));
}

impl Vote {
    /// Appends the value as it stands on the wire.
    pub fn encode_to(&self, out: &mut Vec<u8>)
        ensures
            final(out)@ == old(out)@ + enc_vote(self@),
    {
        let mut payload: Vec<u8> = Vec::new();
        put_u64(&mut payload, self.height);
        put_u64(&mut payload, self.round);
        self.vote_type.encode_to(&mut payload);
        put_bytes(&mut payload, self.block_hash.as_slice());
        assert(payload@ =~= payload_vote(self@));
        write_list(out, &payload);
    }

    /// The value as it stands on the wire.
    pub fn encode(&self) -> (r: Vec<u8>)
        ensures
            r@ == enc_vote(self@),
    {
        let mut out: Vec<u8> = Vec::new();
        self.encode_to(&mut out);
        assert(out@ =~= enc_vote(self@));
        out
    }

    /// Reads a value from the start of the input and hands it back with the rest of the input.
    pub fn decode_from<'a>(buf: &'a [u8]) -> (res: Result<(Vote, &'a [u8]), DecodeError>)
        ensures
            reads(res, dec_vote(buf@)),
    {
        let (p, rest) = read_payload(buf, true)?;
        let (height, p) = read_u64(p)?;
        let (round, p) = read_u64(p)?;
        let (vote_type, p) = VoteType::decode_from(p)?;
        let (block_hash, p) = read_bytes(p)?;
        Ok((Vote { height, round, vote_type, block_hash }, rest))
    }

    /// Reads a value from the start of the input. What follows the value is not looked at.
    pub fn decode(buf: &[u8]) -> (res: Result<Vote, DecodeError>)
        ensures
            match dec_vote(buf@) {
                Ok((v, _)) => res is Ok && res->Ok_0@ == v,
                Err(e) => res is Err && res->Err_0 == e,
            },
    {
        let (v, _) = Vote::decode_from(buf)?;
        Ok(v)
    }
}

/// The fields of a signed vote on the wire, one after the other.
pub open spec fn payload_signed_vote(v: SignedVoteView) -> Seq<u8> {
    enc_bytes(v.signature) + (enc_vote(v.vote) + (enc_bytes(v.voter) + (Seq::<u8>::empty())))
}

/// A signed vote on the wire: the list of its fields.
pub open spec fn enc_signed_vote(v: SignedVoteView) -> Seq<u8> {
    enc_list(payload_signed_vote(v))
}

/// Takes the fields of a signed vote from a payload.
pub open spec fn fields_signed_vote(p: Seq<u8>) -> Result<SignedVoteView, DecodeError> {
    match take_bytes(p) {
        Err(e) => Err(e),
        Ok((signature, r1)) => match dec_vote(r1) {
            Err(e) => Err(e),
            Ok((vote, r2)) => match take_bytes(r2) {
                Err(e) => Err(e),
                Ok((voter, r3)) => Ok(SignedVoteView { signature, vote, voter }),
            },
        },
    }
}

/// Takes a signed vote from the start of the input.
pub open spec fn dec_signed_vote(buf: Seq<u8>) -> Result<(SignedVoteView, Seq<u8>), DecodeError> {
    match take(buf, true) {
        Err(e) => Err(e),
        Ok((payload, rest)) => match fields_signed_vote(payload) {
            Err(e) => Err(e),
            Ok(v) => Ok((v, rest)),
        },
    }
}

/// A signed vote is read back as it was written.
pub proof fn lemma_signed_vote_round_trip(v: SignedVoteView, rest: Seq<u8>)
    requires
        enc_signed_vote(v).len() <= usize::MAX,
    ensures
        dec_signed_vote(enc_signed_vote(v)
            + rest) == Ok::<(SignedVoteView, Seq<u8>), DecodeError>((v, rest)),
{
    let p = payload_signed_vote(v);
    lemma_take_framed(true, p, rest);
    assert(v.signature.len() <= enc_bytes(v.signature).len());
    lemma_take_bytes(v.signature, enc_vote(v.vote) + (enc_bytes(v.voter) + (Seq::<u8>::empty())));
    lemma_vote_round_trip(v.vote, enc_bytes(v.voter) + (Seq::<u8>::empty()));
    assert(v.voter.len() <= enc_bytes(v.voter).len());
    lemma_take_bytes(v.voter, Seq::<u8>::empty());
    assert(fields_signed_vote(p) == Ok::<SignedVoteView, DecodeError>(v));
}

impl SignedVote {
    /// Appends the value as it stands on the wire.
    pub fn encode_to(&self, out: &mut Vec<u8>)
        ensures
            final(out)@ == old(out)@ + enc_signed_vote(self@),
    {
        let mut payload: Vec<u8> = Vec::new();
        put_bytes(&mut payload, self.signature.as_slice());
        self.vote.encode_to(&mut payload);
        put_bytes(&mut payload, self.voter.as_slice());
        assert(payload@ =~= payload_signed_vote(self@));
        write_list(out, &payload);
    }

    /// The value as it stands on the wire.
    pub fn encode(&self) -> (r: Vec<u8>)
        ensures
            r@ == enc_signed_vote(self@),
    {
        let mut out: Vec<u8> = Vec::new();
        self.encode_to(&mut out);
        assert(out@ =~= enc_signed_vote(self@));
        out
    }

    /// Reads a value from the start of the input and hands it back with the rest of the input.
    pub fn decode_from<'a>(buf: &'a [u8]) -> (res: Result<(SignedVote, &'a [u8]), DecodeError>)
        ensures
            reads(res, dec_signed_vote(buf@)),
    {
        let (p, rest) = read_payload(buf, true)?;
        let (signature, p) = read_bytes(p)?;
        let (vote, p) = Vote::decode_from(p)?;
        let (voter, p) = read_bytes(p)?;
        Ok((SignedVote { signature, vote, voter }, rest))
    }

    /// Reads a value from the start of the input. What follows the value is not looked at.
    pub fn decode(buf: &[u8]) -> (res: Result<SignedVote, DecodeError>)
        ensures
            match dec_signed_vote(buf@) {
                Ok((v, _)) => res is Ok && res->Ok_0@ == v,
                Err(e) => res is Err && res->Err_0 == e,
            },
    {
        let (v, _) = SignedVote::decode_from(buf)?;
        Ok(v)
    }
}

/// The fields of a proof of lock change on the wire, one after the other.
pub open spec fn payload_polc(v: PoLCView) -> Seq<u8> {
    enc_uint(v.lock_round as nat) + (enc_aggregated_vote(v.lock_votes) + (Seq::<u8>::empty()))
}

/// A proof of lock change on the wire: the list of its fields.
pub open spec fn enc_polc(v: PoLCView) -> Seq<u8> {
    enc_list(payload_polc(v))
}

/// Takes the fields of a proof of lock change from a payload.
pub open spec fn fields_polc(p: Seq<u8>) -> Result<PoLCView, DecodeError> {
    match take_u64_spec(p) {
        Err(e) => Err(e),
        Ok((lock_round, r1)) => match dec_aggregated_vote(r1) {
            Err(e) => Err(e),
            Ok((lock_votes, r2)) => Ok(PoLCView { lock_round, lock_votes }),
        },
    }
}

/// Takes a proof of lock change from the start of the input.
pub open spec fn dec_polc(buf: Seq<u8>) -> Result<(PoLCView, Seq<u8>), DecodeError> {
    match take(buf, true) {
        Err(e) => Err(e),
        Ok((payload, rest)) => match fields_polc(payload) {
            Err(e) => Err(e),
            Ok(v) => Ok((v, rest)),
        },
    }
}

/// A proof of lock change is read back as it was written.
pub proof fn lemma_polc_round_trip(v: PoLCView, rest: Seq<u8>)
    requires
        enc_polc(v).len() <= usize::MAX,
    ensures
        dec_polc(enc_polc(v) + rest) == Ok::<(PoLCView, Seq<u8>), DecodeError>((v, rest)),
{
    let p = payload_polc(v);
    lemma_take_framed(true, p, rest);
    lemma_take_u64(v.lock_round, enc_aggregated_vote(v.lock_votes) + (Seq::<u8>::empty()));
    lemma_aggregated_vote_round_trip(v.lock_votes, Seq::<u8>::empty());
    assert(fields_polc(p) == Ok::<PoLCView, DecodeError>(v));
}

impl PoLC {
    /// Appends the value as it stands on the wire.
    pub fn encode_to(&self, out: &mut Vec<u8>)
        ensures
            final(out)@ == old(out)@ + enc_polc(self@),
    {
        let mut payload: Vec<u8> = Vec::new();
        put_u64(&mut payload, self.lock_round);
        self.lock_votes.encode_to(&mut payload);
        assert(payload@ =~= payload_polc(self@));
        write_list(out, &payload);
    }

    /// The value as it stands on the wire.
    pub fn encode(&self) -> (r: Vec<u8>)
        ensures
            r@ == enc_polc(self@),
    {
        let mut out: Vec<u8> = Vec::new();
        self.encode_to(&mut out);
        assert(out@ =~= enc_polc(self@));
        out
    }

    /// Reads a value from the start of the input and hands it back with the rest of the input.
    pub fn decode_from<'a>(buf: &'a [u8]) -> (res: Result<(PoLC, &'a [u8]), DecodeError>)
        ensures
            reads(res, dec_polc(buf@)),
    {
        let (p, rest) = read_payload(buf, true)?;
        let (lock_round, p) = read_u64(p)?;
        let (lock_votes, p) = AggregatedVote::decode_from(p)?;
        Ok((PoLC { lock_round, lock_votes }, rest))
    }

    /// Reads a value from the start of the input. What follows the value is not looked at.
    pub fn decode(buf: &[u8]) -> (res: Result<PoLC, DecodeError>)
        ensures
            match dec_polc(buf@) {
                Ok((v, _)) => res is Ok && res->Ok_0@ == v,
                Err(e) => res is Err && res->Err_0 == e,
            },
    {
        let (v, _) = PoLC::decode_from(buf)?;
        Ok(v)
    }
}

/// The fields of a proposal on the wire, one after the other: the flag of the lock, the height,
/// the round, the content, the block hash, the lock if there is one, and the proposer.
pub open spec fn payload_proposal(v: ProposalView) -> Seq<u8> {
    enc_bool(v.lock is Some) + (enc_uint(v.height as nat) + (enc_uint(v.round as nat)
        + (enc_u8_list(
        v.content,
    ) + (enc_bytes(v.block_hash) + (match v.lock {
        Some(polc) => enc_polc(polc) + (enc_bytes(v.proposer) + (Seq::<u8>::empty())),
        None => enc_bytes(v.proposer) + (Seq::<u8>::empty()),
    })))))
}

/// A proposal on the wire: the list of its fields.
pub open spec fn enc_proposal(v: ProposalView) -> Seq<u8> {
    enc_list(payload_proposal(v))
}

/// Takes the lock of a proposal, if the flag says that there is one, and the proposer.
pub open spec fn lock_and_proposer(has_lock: bool, p: Seq<u8>) -> Result<
    (Option<PoLCView>, Seq<u8>),
    DecodeError,
> {
    if has_lock {
        match dec_polc(p) {
            Err(e) => Err(e),
            Ok((polc, r1)) => match take_bytes(r1) {
                Err(e) => Err(e),
                Ok((proposer, _)) => Ok((Some(polc), proposer)),
            },
        }
    } else {
        match take_bytes(p) {
            Err(e) => Err(e),
            Ok((proposer, _)) => Ok((None, proposer)),
        }
    }
}

/// Takes the fields of a proposal from a payload.
pub open spec fn fields_proposal(p: Seq<u8>) -> Result<ProposalView, DecodeError> {
    match take_bool(p) {
        Err(e) => Err(e),
        Ok((has_lock, r1)) => match take_u64_spec(r1) {
            Err(e) => Err(e),
            Ok((height, r2)) => match take_u64_spec(r2) {
                Err(e) => Err(e),
                Ok((round, r3)) => match take_u8_list(r3) {
                    Err(e) => Err(e),
                    Ok((content, r4)) => match take_bytes(r4) {
                        Err(e) => Err(e),
                        Ok((block_hash, r5)) => match lock_and_proposer(has_lock, r5) {
                            Err(e) => Err(e),
                            Ok((lock, proposer)) => Ok(
                                ProposalView { height, round, content, block_hash, lock, proposer },
                            ),
                        },
                    },
                },
            },
        },
    }
}

/// Takes a proposal from the start of the input.
pub open spec fn dec_proposal(buf: Seq<u8>) -> Result<(ProposalView, Seq<u8>), DecodeError> {
    match take(buf, true) {
        Err(e) => Err(e),
        Ok((payload, rest)) => match fields_proposal(payload) {
            Err(e) => Err(e),
            Ok(v) => Ok((v, rest)),
        },
    }
}

/// A proposal is read back as it was written.
pub proof fn lemma_proposal_round_trip(v: ProposalView, rest: Seq<u8>)
    requires
        enc_proposal(v).len() <= usize::MAX,
    ensures
        dec_proposal(enc_proposal(v)
            + rest) == Ok::<(ProposalView, Seq<u8>), DecodeError>((v, rest)),
{
    let p = payload_proposal(v);
    lemma_take_framed(true, p, rest);
    let end = enc_bytes(v.proposer) + (Seq::<u8>::empty());
    let r5 = match v.lock {
        Some(polc) => enc_polc(polc) + end,
        None => end,
    };
    let r4 = enc_bytes(v.block_hash) + r5;
    let r3 = enc_u8_list(v.content) + r4;
    let r2 = enc_uint(v.round as nat) + r3;
    let r1 = enc_uint(v.height as nat) + r2;
    assert(p == enc_bool(v.lock is Some) + r1);
    lemma_take_bool(v.lock is Some, r1);
    lemma_take_u64(v.height, r2);
    lemma_take_u64(v.round, r3);
    assert(enc_each_u8(v.content).len() <= enc_u8_list(v.content).len());
    lemma_take_u8_list(v.content, r4);
    assert(v.block_hash.len() <= enc_bytes(v.block_hash).len());
    lemma_take_bytes(v.block_hash, r5);
    assert(v.proposer.len() <= enc_bytes(v.proposer).len());
    lemma_take_bytes(v.proposer, Seq::<u8>::empty());
    match v.lock {
        Some(polc) => {
            lemma_polc_round_trip(polc, end);
        },
        None => {},
    }
    assert(lock_and_proposer(v.lock is Some, r5) == Ok::<(Option<PoLCView>, Seq<u8>), DecodeError>(
        (v.lock, v.proposer),
    ));
    assert(fields_proposal(p) == Ok::<ProposalView, DecodeError>(v));
}

impl Proposal {
    /// Appends the value as it stands on the wire.
    pub fn encode_to(&self, out: &mut Vec<u8>)
        ensures
            final(out)@ == old(out)@ + enc_proposal(self@),
    {
        let mut payload: Vec<u8> = Vec::new();
        write_bool(&mut payload, self.lock.is_some());
        put_u64(&mut payload, self.height);
        put_u64(&mut payload, self.round);
        write_u8_list(&mut payload, &self.content);
        put_bytes(&mut payload, self.block_hash.as_slice());
        let ghost front = payload@;
        let ghost back = match self@.lock {
            Some(polc) => enc_polc(polc) + (enc_bytes(self.proposer@) + (Seq::<u8>::empty())),
            None => enc_bytes(self.proposer@) + (Seq::<u8>::empty()),
        };
        match &self.lock {
            Some(polc) => {
                polc.encode_to(&mut payload);
            },
            None => {},
        }
        put_bytes(&mut payload, self.proposer.as_slice());
        proof {
            assert(payload@ =~= front + back);
            let e4 = enc_bytes(self.block_hash@) + back;
            let e3 = enc_u8_list(self.content@) + e4;
            let e2 = enc_uint(self.round as nat) + e3;
            let e1 = enc_uint(self.height as nat) + e2;
            assert(front + back =~= enc_bool(self@.lock is Some) + e1);
            assert(payload_proposal(self@) == enc_bool(self@.lock is Some) + e1);
        }
        write_list(out, &payload);
    }

    /// The value as it stands on the wire.
    pub fn encode(&self) -> (r: Vec<u8>)
        ensures
            r@ == enc_proposal(self@),
    {
        let mut out: Vec<u8> = Vec::new();
        self.encode_to(&mut out);
        assert(out@ =~= enc_proposal(self@));
        out
    }

    /// Reads a value from the start of the input and hands it back with the rest of the input.
    pub fn decode_from<'a>(buf: &'a [u8]) -> (res: Result<(Proposal, &'a [u8]), DecodeError>)
        ensures
            reads(res, dec_proposal(buf@)),
    {
        let (p, rest) = read_payload(buf, true)?;
        let (has_lock, p) = read_bool(p)?;
        let (height, p) = read_u64(p)?;
        let (round, p) = read_u64(p)?;
        let (content, p) = read_u8_list(p)?;
        let (block_hash, p) = read_bytes(p)?;
        if has_lock {
            let (polc, p) = PoLC::decode_from(p)?;
            let (proposer, _) = read_bytes(p)?;
            Ok((Proposal { height, round, content, block_hash, lock: Some(polc), proposer }, rest))
        } else {
            let (proposer, _) = read_bytes(p)?;
            Ok((Proposal { height, round, content, block_hash, lock: None, proposer }, rest))
        }
    }

    /// Reads a value from the start of the input. What follows the value is not looked at.
    pub fn decode(buf: &[u8]) -> (res: Result<Proposal, DecodeError>)
        ensures
            match dec_proposal(buf@) {
                Ok((v, _)) => res is Ok && res->Ok_0@ == v,
                Err(e) => res is Err && res->Err_0 == e,
            },
    {
        let (v, _) = Proposal::decode_from(buf)?;
        Ok(v)
    }
}

/// The fields of a signed proposal on the wire, one after the other.
pub open spec fn payload_signed_proposal(v: SignedProposalView) -> Seq<u8> {
    enc_bytes(v.signature) + (enc_proposal(v.proposal) + (Seq::<u8>::empty()))
}

/// A signed proposal on the wire: the list of its fields.
pub open spec fn enc_signed_proposal(v: SignedProposalView) -> Seq<u8> {
    enc_list(payload_signed_proposal(v))
}

/// Takes the fields of a signed proposal from a payload.
pub open spec fn fields_signed_proposal(p: Seq<u8>) -> Result<SignedProposalView, DecodeError> {
    match take_bytes(p) {
        Err(e) => Err(e),
        Ok((signature, r1)) => match dec_proposal(r1) {
            Err(e) => Err(e),
            Ok((proposal, r2)) => Ok(SignedProposalView { signature, proposal }),
        },
    }
}

/// Takes a signed proposal from the start of the input.
pub open spec fn dec_signed_proposal(buf: Seq<u8>)
    -> Result<(SignedProposalView, Seq<u8>), DecodeError> {
    match take(buf, true) {
        Err(e) => Err(e),
        Ok((payload, rest)) => match fields_signed_proposal(payload) {
            Err(e) => Err(e),
            Ok(v) => Ok((v, rest)),
        },
    }
}

/// A signed proposal is read back as it was written.
pub proof fn lemma_signed_proposal_round_trip(v: SignedProposalView, rest: Seq<u8>)
    requires
        enc_signed_proposal(v).len() <= usize::MAX,
    ensures
        dec_signed_proposal(enc_signed_proposal(v)
            + rest) == Ok::<(SignedProposalView, Seq<u8>), DecodeError>((v, rest)),
{
    let p = payload_signed_proposal(v);
    lemma_take_framed(true, p, rest);
    assert(v.signature.len() <= enc_bytes(v.signature).len());
    lemma_take_bytes(v.signature, enc_proposal(v.proposal) + (Seq::<u8>::empty()));
    lemma_proposal_round_trip(v.proposal, Seq::<u8>::empty());
    assert(fields_signed_proposal(p) == Ok::<SignedProposalView, DecodeError>(v));
}

impl SignedProposal {
    /// Appends the value as it stands on the wire.
    pub fn encode_to(&self, out: &mut Vec<u8>)
        ensures
            final(out)@ == old(out)@ + enc_signed_proposal(self@),
    {
        let mut payload: Vec<u8> = Vec::new();
        put_bytes(&mut payload, self.signature.as_slice());
        self.proposal.encode_to(&mut payload);
        assert(payload@ =~= payload_signed_proposal(self@));
        write_list(out, &payload);
    }

    /// The value as it stands on the wire.
    pub fn encode(&self) -> (r: Vec<u8>)
        ensures
            r@ == enc_signed_proposal(self@),
    {
        let mut out: Vec<u8> = Vec::new();
        self.encode_to(&mut out);
        assert(out@ =~= enc_signed_proposal(self@));
        out
    }

    /// Reads a value from the start of the input and hands it back with the rest of the input.
    pub fn decode_from<'a>(buf: &'a [u8]) -> (res: Result<(SignedProposal, &'a [u8]), DecodeError>)
        ensures
            reads(res, dec_signed_proposal(buf@)),
    {
        let (p, rest) = read_payload(buf, true)?;
        let (signature, p) = read_bytes(p)?;
        let (proposal, p) = Proposal::decode_from(p)?;
        Ok((SignedProposal { signature, proposal }, rest))
    }

    /// Reads a value from the start of the input. What follows the value is not looked at.
    pub fn decode(buf: &[u8]) -> (res: Result<SignedProposal, DecodeError>)
        ensures
            match dec_signed_proposal(buf@) {
                Ok((v, _)) => res is Ok && res->Ok_0@ == v,
                Err(e) => res is Err && res->Err_0 == e,
            },
    {
        let (v, _) = SignedProposal::decode_from(buf)?;
        Ok(v)
    }
}

/// The fields of a proof on the wire, one after the other.
pub open spec fn payload_proof(v: ProofView) -> Seq<u8> {
    enc_uint(v.height as nat) + (enc_uint(v.round as nat) + (enc_bytes(v.block_hash)
        + (enc_aggregated_signature(v.signature) + (Seq::<u8>::empty()))))
}

/// A proof on the wire: the list of its fields.
pub open spec fn enc_proof(v: ProofView) -> Seq<u8> {
    enc_list(payload_proof(v))
}

/// Takes the fields of a proof from a payload.
pub open spec fn fields_proof(p: Seq<u8>) -> Result<ProofView, DecodeError> {
    match take_u64_spec(p) {
        Err(e) => Err(e),
        Ok((height, r1)) => match take_u64_spec(r1) {
            Err(e) => Err(e),
            Ok((round, r2)) => match take_bytes(r2) {
                Err(e) => Err(e),
                Ok((block_hash, r3)) => match dec_aggregated_signature(r3) {
                    Err(e) => Err(e),
                    Ok((signature, r4)) => Ok(ProofView { height, round, block_hash, signature }),
                },
            },
        },
    }
}

/// Takes a proof from the start of the input.
pub open spec fn dec_proof(buf: Seq<u8>) -> Result<(ProofView, Seq<u8>), DecodeError> {
    match take(buf, true) {
        Err(e) => Err(e),
        Ok((payload, rest)) => match fields_proof(payload) {
            Err(e) => Err(e),
            Ok(v) => Ok((v, rest)),
        },
    }
}

/// A proof is read back as it was written.
pub proof fn lemma_proof_round_trip(v: ProofView, rest: Seq<u8>)
    requires
        enc_proof(v).len() <= usize::MAX,
    ensures
        dec_proof(enc_proof(v) + rest) == Ok::<(ProofView, Seq<u8>), DecodeError>((v, rest)),
{
    let p = payload_proof(v);
    lemma_take_framed(true, p, rest);
    lemma_take_u64(v.height, enc_uint(v.round as nat) + (enc_bytes(v.block_hash)
        + (enc_aggregated_signature(v.signature) + (Seq::<u8>::empty()))));
    lemma_take_u64(v.round, enc_bytes(v.block_hash) + (enc_aggregated_signature(v.signature)
        + (Seq::<u8>::empty())));
    assert(v.block_hash.len() <= enc_bytes(v.block_hash).len());
    lemma_take_bytes(v.block_hash, enc_aggregated_signature(v.signature) + (Seq::<u8>::empty()));
    lemma_aggregated_signature_round_trip(v.signature, Seq::<u8>::empty());
    assert(fields_proof(p) == Ok::<ProofView, DecodeError>(v));
}

impl Proof {
    /// Appends the value as it stands on the wire.
    pub fn encode_to(&self, out: &mut Vec<u8>)
        ensures
            final(out)@ == old(out)@ + enc_proof(self@),
    {
        let mut payload: Vec<u8> = Vec::new();
        put_u64(&mut payload, self.height);
        put_u64(&mut payload, self.round);
        put_bytes(&mut payload, self.block_hash.as_slice());
        self.signature.encode_to(&mut payload);
        assert(payload@ =~= payload_proof(self@));
        write_list(out, &payload);
    }

    /// The value as it stands on the wire.
    pub fn encode(&self) -> (r: Vec<u8>)
        ensures
            r@ == enc_proof(self@),
    {
        let mut out: Vec<u8> = Vec::new();
        self.encode_to(&mut out);
        assert(out@ =~= enc_proof(self@));
        out
    }

    /// Reads a value from the start of the input and hands it back with the rest of the input.
    pub fn decode_from<'a>(buf: &'a [u8]) -> (res: Result<(Proof, &'a [u8]), DecodeError>)
        ensures
            reads(res, dec_proof(buf@)),
    {
        let (p, rest) = read_payload(buf, true)?;
        let (height, p) = read_u64(p)?;
        let (round, p) = read_u64(p)?;
        let (block_hash, p) = read_bytes(p)?;
        let (signature, p) = AggregatedSignature::decode_from(p)?;
        Ok((Proof { height, round, block_hash, signature }, rest))
    }

    /// Reads a value from the start of the input. What follows the value is not looked at.
    pub fn decode(buf: &[u8]) -> (res: Result<Proof, DecodeError>)
        ensures
            match dec_proof(buf@) {
                Ok((v, _)) => res is Ok && res->Ok_0@ == v,
                Err(e) => res is Err && res->Err_0 == e,
            },
    {
        let (v, _) = Proof::decode_from(buf)?;
        Ok(v)
    }
}

/// The fields of a commit on the wire, one after the other.
pub open spec fn payload_commit(v: CommitView) -> Seq<u8> {
    enc_uint(v.height as nat) + (enc_u8_list(v.content) + (enc_proof(v.proof)
        + (Seq::<u8>::empty())))
}

/// A commit on the wire: the list of its fields.
pub open spec fn enc_commit(v: CommitView) -> Seq<u8> {
    enc_list(payload_commit(v))
}

/// Takes the fields of a commit from a payload.
pub open spec fn fields_commit(p: Seq<u8>) -> Result<CommitView, DecodeError> {
    match take_u64_spec(p) {
        Err(e) => Err(e),
        Ok((height, r1)) => match take_u8_list(r1) {
            Err(e) => Err(e),
            Ok((content, r2)) => match dec_proof(r2) {
                Err(e) => Err(e),
                Ok((proof, r3)) => Ok(CommitView { height, content, proof }),
            },
        },
    }
}

/// Takes a commit from the start of the input.
pub open spec fn dec_commit(buf: Seq<u8>) -> Result<(CommitView, Seq<u8>), DecodeError> {
    match take(buf, true) {
        Err(e) => Err(e),
        Ok((payload, rest)) => match fields_commit(payload) {
            Err(e) => Err(e),
            Ok(v) => Ok((v, rest)),
        },
    }
}

/// A commit is read back as it was written.
pub proof fn lemma_commit_round_trip(v: CommitView, rest: Seq<u8>)
    requires
        enc_commit(v).len() <= usize::MAX,
    ensures
        dec_commit(enc_commit(v) + rest) == Ok::<(CommitView, Seq<u8>), DecodeError>((v, rest)),
{
    let p = payload_commit(v);
    lemma_take_framed(true, p, rest);
    lemma_take_u64(v.height, enc_u8_list(v.content) + (enc_proof(v.proof) + (Seq::<u8>::empty())));
    assert(enc_each_u8(v.content).len() <= enc_u8_list(v.content).len());
    lemma_take_u8_list(v.content, enc_proof(v.proof) + (Seq::<u8>::empty()));
    lemma_proof_round_trip(v.proof, Seq::<u8>::empty());
    assert(fields_commit(p) == Ok::<CommitView, DecodeError>(v));
}

impl Commit {
    /// Appends the value as it stands on the wire.
    pub fn encode_to(&self, out: &mut Vec<u8>)
        ensures
            final(out)@ == old(out)@ + enc_commit(self@),
    {
        let mut payload: Vec<u8> = Vec::new();
        put_u64(&mut payload, self.height);
        write_u8_list(&mut payload, &self.content);
        self.proof.encode_to(&mut payload);
        assert(payload@ =~= payload_commit(self@));
        write_list(out, &payload);
    }

    /// The value as it stands on the wire.
    pub fn encode(&self) -> (r: Vec<u8>)
        ensures
            r@ == enc_commit(self@),
    {
        let mut out: Vec<u8> = Vec::new();
        self.encode_to(&mut out);
        assert(out@ =~= enc_commit(self@));
        out
    }

    /// Reads a value from the start of the input and hands it back with the rest of the input.
    pub fn decode_from<'a>(buf: &'a [u8]) -> (res: Result<(Commit, &'a [u8]), DecodeError>)
        ensures
            reads(res, dec_commit(buf@)),
    {
        let (p, rest) = read_payload(buf, true)?;
        let (height, p) = read_u64(p)?;
        let (content, p) = read_u8_list(p)?;
        let (proof, p) = Proof::decode_from(p)?;
        Ok((Commit { height, content, proof }, rest))
    }

    /// Reads a value from the start of the input. What follows the value is not looked at.
    pub fn decode(buf: &[u8]) -> (res: Result<Commit, DecodeError>)
        ensures
            match dec_commit(buf@) {
                Ok((v, _)) => res is Ok && res->Ok_0@ == v,
                Err(e) => res is Err && res->Err_0 == e,
            },
    {
        let (v, _) = Commit::decode_from(buf)?;
        Ok(v)
    }
}

/// The fields of an aggregated choke on the wire, one after the other.
pub open spec fn payload_aggregated_choke(v: AggregatedChokeView) -> Seq<u8> {
    enc_uint(v.height as nat) + (enc_uint(v.round as nat) + (enc_bytes(v.signature)
        + (enc_bytes_list(v.voters) + (Seq::<u8>::empty()))))
}

/// An aggregated choke on the wire: the list of its fields.
pub open spec fn enc_aggregated_choke(v: AggregatedChokeView) -> Seq<u8> {
    enc_list(payload_aggregated_choke(v))
}

/// Takes the fields of an aggregated choke from a payload.
pub open spec fn fields_aggregated_choke(p: Seq<u8>) -> Result<AggregatedChokeView, DecodeError> {
    match take_u64_spec(p) {
        Err(e) => Err(e),
        Ok((height, r1)) => match take_u64_spec(r1) {
            Err(e) => Err(e),
            Ok((round, r2)) => match take_bytes(r2) {
                Err(e) => Err(e),
                Ok((signature, r3)) => match take_bytes_list(r3) {
                    Err(e) => Err(e),
                    Ok((voters, r4)) => Ok(AggregatedChokeView { height, round, signature,
                        voters }),
                },
            },
        },
    }
}

/// Takes an aggregated choke from the start of the input.
pub open spec fn dec_aggregated_choke(buf: Seq<u8>)
    -> Result<(AggregatedChokeView, Seq<u8>), DecodeError> {
    match take(buf, true) {
        Err(e) => Err(e),
        Ok((payload, rest)) => match fields_aggregated_choke(payload) {
            Err(e) => Err(e),
            Ok(v) => Ok((v, rest)),
        },
    }
}

/// An aggregated choke is read back as it was written.
pub proof fn lemma_aggregated_choke_round_trip(v: AggregatedChokeView, rest: Seq<u8>)
    requires
        enc_aggregated_choke(v).len() <= usize::MAX,
    ensures
        dec_aggregated_choke(enc_aggregated_choke(v)
            + rest) == Ok::<(AggregatedChokeView, Seq<u8>), DecodeError>((v, rest)),
{
    let p = payload_aggregated_choke(v);
    lemma_take_framed(true, p, rest);
    lemma_take_u64(v.height, enc_uint(v.round as nat) + (enc_bytes(v.signature)
        + (enc_bytes_list(v.voters) + (Seq::<u8>::empty()))));
    lemma_take_u64(v.round, enc_bytes(v.signature) + (enc_bytes_list(v.voters)
        + (Seq::<u8>::empty())));
    assert(v.signature.len() <= enc_bytes(v.signature).len());
    lemma_take_bytes(v.signature, enc_bytes_list(v.voters) + (Seq::<u8>::empty()));
    assert(enc_each_bytes(v.voters).len() <= enc_bytes_list(v.voters).len());
    lemma_take_bytes_list(v.voters, Seq::<u8>::empty());
    assert(fields_aggregated_choke(p) == Ok::<AggregatedChokeView, DecodeError>(v));
}

impl AggregatedChoke {
    /// Appends the value as it stands on the wire.
    pub fn encode_to(&self, out: &mut Vec<u8>)
        ensures
            final(out)@ == old(out)@ + enc_aggregated_choke(self@),
    {
        let mut payload: Vec<u8> = Vec::new();
        put_u64(&mut payload, self.height);
        put_u64(&mut payload, self.round);
        put_bytes(&mut payload, self.signature.as_slice());
        write_bytes_list(&mut payload, &self.voters);
        assert(payload@ =~= payload_aggregated_choke(self@));
        write_list(out, &payload);
    }

    /// The value as it stands on the wire.
    pub fn encode(&self) -> (r: Vec<u8>)
        ensures
            r@ == enc_aggregated_choke(self@),
    {
        let mut out: Vec<u8> = Vec::new();
        self.encode_to(&mut out);
        assert(out@ =~= enc_aggregated_choke(self@));
        out
    }

    /// Reads a value from the start of the input and hands it back with the rest of the input.
    pub fn decode_from<'a>(buf: &'a [u8]) -> (res: Result<(AggregatedChoke, &'a [u8]), DecodeError>)
        ensures
            reads(res, dec_aggregated_choke(buf@)),
    {
        let (p, rest) = read_payload(buf, true)?;
        let (height, p) = read_u64(p)?;
        let (round, p) = read_u64(p)?;
        let (signature, p) = read_bytes(p)?;
        let (voters, p) = read_bytes_list(p)?;
        Ok((AggregatedChoke { height, round, signature, voters }, rest))
    }

    /// Reads a value from the start of the input. What follows the value is not looked at.
    pub fn decode(buf: &[u8]) -> (res: Result<AggregatedChoke, DecodeError>)
        ensures
            match dec_aggregated_choke(buf@) {
                Ok((v, _)) => res is Ok && res->Ok_0@ == v,
                Err(e) => res is Err && res->Err_0 == e,
            },
    {
        let (v, _) = AggregatedChoke::decode_from(buf)?;
        Ok(v)
    }
}

/// The number that says on the wire which certificate an update comes from.
pub open spec fn update_from_tag(v: UpdateFromView) -> u8 {
    match v {
        UpdateFromView::PrevoteQC(_) => 0,
        UpdateFromView::PrecommitQC(_) => 1,
        UpdateFromView::ChokeQC(_) => 2,
    }
}

/// The fields of an update on the wire: the tag, then the certificate.
pub open spec fn payload_update_from(v: UpdateFromView) -> Seq<u8> {
    enc_uint(update_from_tag(v) as nat) + (match v {
        UpdateFromView::PrevoteQC(qc) => enc_aggregated_vote(qc) + (Seq::<u8>::empty()),
        UpdateFromView::PrecommitQC(qc) => enc_aggregated_vote(qc) + (Seq::<u8>::empty()),
        UpdateFromView::ChokeQC(qc) => enc_aggregated_choke(qc) + (Seq::<u8>::empty()),
    })
}

/// An update on the wire: the list of its tag and its certificate.
pub open spec fn enc_update_from(v: UpdateFromView) -> Seq<u8> {
    enc_list(payload_update_from(v))
}

/// Takes the fields of an update from a payload. A tag above 2 is an error.
pub open spec fn fields_update_from(p: Seq<u8>) -> Result<UpdateFromView, DecodeError> {
    match take_u8_spec(p) {
        Err(e) => Err(e),
        Ok((tag, r1)) => if tag == 0 {
            match dec_aggregated_vote(r1) {
                Err(e) => Err(e),
                Ok((qc, _)) => Ok(UpdateFromView::PrevoteQC(qc)),
            }
        } else if tag == 1 {
            match dec_aggregated_vote(r1) {
                Err(e) => Err(e),
                Ok((qc, _)) => Ok(UpdateFromView::PrecommitQC(qc)),
            }
        } else if tag == 2 {
            match dec_aggregated_choke(r1) {
                Err(e) => Err(e),
                Ok((qc, _)) => Ok(UpdateFromView::ChokeQC(qc)),
            }
        } else {
            Err(DecodeError::InvalidUpdateFrom)
        },
    }
}

/// Takes an update from the start of the input.
pub open spec fn dec_update_from(buf: Seq<u8>) -> Result<(UpdateFromView, Seq<u8>), DecodeError> {
    match take(buf, true) {
        Err(e) => Err(e),
        Ok((payload, rest)) => match fields_update_from(payload) {
            Err(e) => Err(e),
            Ok(v) => Ok((v, rest)),
        },
    }
}

/// An update is read back as it was written.
pub proof fn lemma_update_from_round_trip(v: UpdateFromView, rest: Seq<u8>)
    requires
        enc_update_from(v).len() <= usize::MAX,
    ensures
        dec_update_from(enc_update_from(v) + rest) == Ok::<(UpdateFromView, Seq<u8>), DecodeError>(
            (v, rest),
        ),
{
    let p = payload_update_from(v);
    lemma_take_framed(true, p, rest);
    match v {
        UpdateFromView::PrevoteQC(qc) => {
            lemma_take_u8(0, enc_aggregated_vote(qc) + (Seq::<u8>::empty()));
            lemma_aggregated_vote_round_trip(qc, Seq::<u8>::empty());
        },
        UpdateFromView::PrecommitQC(qc) => {
            lemma_take_u8(1, enc_aggregated_vote(qc) + (Seq::<u8>::empty()));
            lemma_aggregated_vote_round_trip(qc, Seq::<u8>::empty());
        },
        UpdateFromView::ChokeQC(qc) => {
            lemma_take_u8(2, enc_aggregated_choke(qc) + (Seq::<u8>::empty()));
            lemma_aggregated_choke_round_trip(qc, Seq::<u8>::empty());
        },
    }
    assert(fields_update_from(p) == Ok::<UpdateFromView, DecodeError>(v));
}

impl UpdateFrom {
    /// Appends the value as it stands on the wire.
    pub fn encode_to(&self, out: &mut Vec<u8>)
        ensures
            final(out)@ == old(out)@ + enc_update_from(self@),
    {
        let mut payload: Vec<u8> = Vec::new();
        match self {
            UpdateFrom::PrevoteQC(qc) => {
                put_u8(&mut payload, 0u8);
                qc.encode_to(&mut payload);
            },
            UpdateFrom::PrecommitQC(qc) => {
                put_u8(&mut payload, 1u8);
                qc.encode_to(&mut payload);
            },
            UpdateFrom::ChokeQC(qc) => {
                put_u8(&mut payload, 2u8);
                qc.encode_to(&mut payload);
            },
        }
        assert(payload@ =~= payload_update_from(self@));
        write_list(out, &payload);
    }

    /// The value as it stands on the wire.
    pub fn encode(&self) -> (r: Vec<u8>)
        ensures
            r@ == enc_update_from(self@),
    {
        let mut out: Vec<u8> = Vec::new();
        self.encode_to(&mut out);
        assert(out@ =~= enc_update_from(self@));
        out
    }

    /// Reads a value from the start of the input and hands it back with the rest of the input.
    pub fn decode_from<'a>(buf: &'a [u8]) -> (res: Result<(UpdateFrom, &'a [u8]), DecodeError>)
        ensures
            reads(res, dec_update_from(buf@)),
    {
        let (p, rest) = read_payload(buf, true)?;
        let (tag, p) = read_u8(p)?;
        if tag == 0 {
            let (qc, _) = AggregatedVote::decode_from(p)?;
            Ok((UpdateFrom::PrevoteQC(qc), rest))
        } else if tag == 1 {
            let (qc, _) = AggregatedVote::decode_from(p)?;
            Ok((UpdateFrom::PrecommitQC(qc), rest))
        } else if tag == 2 {
            let (qc, _) = AggregatedChoke::decode_from(p)?;
            Ok((UpdateFrom::ChokeQC(qc), rest))
        } else {
            Err(DecodeError::InvalidUpdateFrom)
        }
    }

    /// Reads a value from the start of the input. What follows the value is not looked at.
    pub fn decode(buf: &[u8]) -> (res: Result<UpdateFrom, DecodeError>)
        ensures
            match dec_update_from(buf@) {
                Ok((v, _)) => res is Ok && res->Ok_0@ == v,
                Err(e) => res is Err && res->Err_0 == e,
            },
    {
        let (v, _) = UpdateFrom::decode_from(buf)?;
        Ok(v)
    }
}

/// The fields of a choke on the wire, one after the other.
pub open spec fn payload_choke(v: ChokeView) -> Seq<u8> {
    enc_uint(v.height as nat) + (enc_uint(v.round as nat) + (enc_update_from(v.from)
        + (Seq::<u8>::empty())))
}

/// A choke on the wire: the list of its fields.
pub open spec fn enc_choke(v: ChokeView) -> Seq<u8> {
    enc_list(payload_choke(v))
}

/// Takes the fields of a choke from a payload.
pub open spec fn fields_choke(p: Seq<u8>) -> Result<ChokeView, DecodeError> {
    match take_u64_spec(p) {
        Err(e) => Err(e),
        Ok((height, r1)) => match take_u64_spec(r1) {
            Err(e) => Err(e),
            Ok((round, r2)) => match dec_update_from(r2) {
                Err(e) => Err(e),
                Ok((from, r3)) => Ok(ChokeView { height, round, from }),
            },
        },
    }
}

/// Takes a choke from the start of the input.
pub open spec fn dec_choke(buf: Seq<u8>) -> Result<(ChokeView, Seq<u8>), DecodeError> {
    match take(buf, true) {
        Err(e) => Err(e),
        Ok((payload, rest)) => match fields_choke(payload) {
            Err(e) => Err(e),
            Ok(v) => Ok((v, rest)),
        },
    }
}

/// A choke is read back as it was written.
pub proof fn lemma_choke_round_trip(v: ChokeView, rest: Seq<u8>)
    requires
        enc_choke(v).len() <= usize::MAX,
    ensures
        dec_choke(enc_choke(v) + rest) == Ok::<(ChokeView, Seq<u8>), DecodeError>((v, rest)),
{
    let p = payload_choke(v);
    lemma_take_framed(true, p, rest);
    lemma_take_u64(v.height, enc_uint(v.round as nat) + (enc_update_from(v.from)
        + (Seq::<u8>::empty())));
    lemma_take_u64(v.round, enc_update_from(v.from) + (Seq::<u8>::empty()));
    lemma_update_from_round_trip(v.from, Seq::<u8>::empty());
    assert(fields_choke(p) == Ok::<ChokeView, DecodeError>(v));
}

impl Choke {
    /// Appends the value as it stands on the wire.
    pub fn encode_to(&self, out: &mut Vec<u8>)
        ensures
            final(out)@ == old(out)@ + enc_choke(self@),
    {
        let mut payload: Vec<u8> = Vec::new();
        put_u64(&mut payload, self.height);
        put_u64(&mut payload, self.round);
        self.from.encode_to(&mut payload);
        assert(payload@ =~= payload_choke(self@));
        write_list(out, &payload);
    }

    /// The value as it stands on the wire.
    pub fn encode(&self) -> (r: Vec<u8>)
        ensures
            r@ == enc_choke(self@),
    {
        let mut out: Vec<u8> = Vec::new();
        self.encode_to(&mut out);
        assert(out@ =~= enc_choke(self@));
        out
    }

    /// Reads a value from the start of the input and hands it back with the rest of the input.
    pub fn decode_from<'a>(buf: &'a [u8]) -> (res: Result<(Choke, &'a [u8]), DecodeError>)
        ensures
            reads(res, dec_choke(buf@)),
    {
        let (p, rest) = read_payload(buf, true)?;
        let (height, p) = read_u64(p)?;
        let (round, p) = read_u64(p)?;
        let (from, p) = UpdateFrom::decode_from(p)?;
        Ok((Choke { height, round, from }, rest))
    }

    /// Reads a value from the start of the input. What follows the value is not looked at.
    pub fn decode(buf: &[u8]) -> (res: Result<Choke, DecodeError>)
        ensures
            match dec_choke(buf@) {
                Ok((v, _)) => res is Ok && res->Ok_0@ == v,
                Err(e) => res is Err && res->Err_0 == e,
            },
    {
        let (v, _) = Choke::decode_from(buf)?;
        Ok(v)
    }
}

/// The fields of a signed choke on the wire, one after the other.
pub open spec fn payload_signed_choke(v: SignedChokeView) -> Seq<u8> {
    enc_bytes(v.signature) + (enc_choke(v.choke) + (enc_bytes(v.address) + (Seq::<u8>::empty())))
}

/// A signed choke on the wire: the list of its fields.
pub open spec fn enc_signed_choke(v: SignedChokeView) -> Seq<u8> {
    enc_list(payload_signed_choke(v))
}

/// Takes the fields of a signed choke from a payload.
pub open spec fn fields_signed_choke(p: Seq<u8>) -> Result<SignedChokeView, DecodeError> {
    match take_bytes(p) {
        Err(e) => Err(e),
        Ok((signature, r1)) => match dec_choke(r1) {
            Err(e) => Err(e),
            Ok((choke, r2)) => match take_bytes(r2) {
                Err(e) => Err(e),
                Ok((address, r3)) => Ok(SignedChokeView { signature, choke, address }),
            },
        },
    }
}

/// Takes a signed choke from the start of the input.
pub open spec fn dec_signed_choke(buf: Seq<u8>) -> Result<(SignedChokeView, Seq<u8>), DecodeError> {
    match take(buf, true) {
        Err(e) => Err(e),
        Ok((payload, rest)) => match fields_signed_choke(payload) {
            Err(e) => Err(e),
            Ok(v) => Ok((v, rest)),
        },
    }
}

/// A signed choke is read back as it was written.
pub proof fn lemma_signed_choke_round_trip(v: SignedChokeView, rest: Seq<u8>)
    requires
        enc_signed_choke(v).len() <= usize::MAX,
    ensures
        dec_signed_choke(enc_signed_choke(v)
            + rest) == Ok::<(SignedChokeView, Seq<u8>), DecodeError>((v, rest)),
{
    let p = payload_signed_choke(v);
    lemma_take_framed(true, p, rest);
    assert(v.signature.len() <= enc_bytes(v.signature).len());
    lemma_take_bytes(v.signature, enc_choke(v.choke) + (enc_bytes(v.address)
        + (Seq::<u8>::empty())));
    lemma_choke_round_trip(v.choke, enc_bytes(v.address) + (Seq::<u8>::empty()));
    assert(v.address.len() <= enc_bytes(v.address).len());
    lemma_take_bytes(v.address, Seq::<u8>::empty());
    assert(fields_signed_choke(p) == Ok::<SignedChokeView, DecodeError>(v));
}

impl SignedChoke {
    /// Appends the value as it stands on the wire.
    pub fn encode_to(&self, out: &mut Vec<u8>)
        ensures
            final(out)@ == old(out)@ + enc_signed_choke(self@),
    {
        let mut payload: Vec<u8> = Vec::new();
        put_bytes(&mut payload, self.signature.as_slice());
        self.choke.encode_to(&mut payload);
        put_bytes(&mut payload, self.address.as_slice());
        assert(payload@ =~= payload_signed_choke(self@));
        write_list(out, &payload);
    }

    /// The value as it stands on the wire.
    pub fn encode(&self) -> (r: Vec<u8>)
        ensures
            r@ == enc_signed_choke(self@),
    {
        let mut out: Vec<u8> = Vec::new();
        self.encode_to(&mut out);
        assert(out@ =~= enc_signed_choke(self@));
        out
    }

    /// Reads a value from the start of the input and hands it back with the rest of the input.
    pub fn decode_from<'a>(buf: &'a [u8]) -> (res: Result<(SignedChoke, &'a [u8]), DecodeError>)
        ensures
            reads(res, dec_signed_choke(buf@)),
    {
        let (p, rest) = read_payload(buf, true)?;
        let (signature, p) = read_bytes(p)?;
        let (choke, p) = Choke::decode_from(p)?;
        let (address, p) = read_bytes(p)?;
        Ok((SignedChoke { signature, choke, address }, rest))
    }

    /// Reads a value from the start of the input. What follows the value is not looked at.
    pub fn decode(buf: &[u8]) -> (res: Result<SignedChoke, DecodeError>)
        ensures
            match dec_signed_choke(buf@) {
                Ok((v, _)) => res is Ok && res->Ok_0@ == v,
                Err(e) => res is Err && res->Err_0 == e,
            },
    {
        let (v, _) = SignedChoke::decode_from(buf)?;
        Ok(v)
    }
}

/// The fields of a lock of the write-ahead log on the wire, one after the other.
pub open spec fn payload_wal_lock(v: WalLockView) -> Seq<u8> {
    enc_uint(v.lock_round as nat) + (enc_aggregated_vote(v.lock_votes) + (enc_u8_list(v.content)
        + (Seq::<u8>::empty())))
}

/// A lock of the write-ahead log on the wire: the list of its fields.
pub open spec fn enc_wal_lock(v: WalLockView) -> Seq<u8> {
    enc_list(payload_wal_lock(v))
}

/// Takes the fields of a lock of the write-ahead log from a payload.
pub open spec fn fields_wal_lock(p: Seq<u8>) -> Result<WalLockView, DecodeError> {
    match take_u64_spec(p) {
        Err(e) => Err(e),
        Ok((lock_round, r1)) => match dec_aggregated_vote(r1) {
            Err(e) => Err(e),
            Ok((lock_votes, r2)) => match take_u8_list(r2) {
                Err(e) => Err(e),
                Ok((content, r3)) => Ok(WalLockView { lock_round, lock_votes, content }),
            },
        },
    }
}

/// Takes a lock of the write-ahead log from the start of the input.
pub open spec fn dec_wal_lock(buf: Seq<u8>) -> Result<(WalLockView, Seq<u8>), DecodeError> {
    match take(buf, true) {
        Err(e) => Err(e),
        Ok((payload, rest)) => match fields_wal_lock(payload) {
            Err(e) => Err(e),
            Ok(v) => Ok((v, rest)),
        },
    }
}

/// A lock of the write-ahead log is read back as it was written.
pub proof fn lemma_wal_lock_round_trip(v: WalLockView, rest: Seq<u8>)
    requires
        enc_wal_lock(v).len() <= usize::MAX,
    ensures
        dec_wal_lock(enc_wal_lock(v)
            + rest) == Ok::<(WalLockView, Seq<u8>), DecodeError>((v, rest)),
{
    let p = payload_wal_lock(v);
    lemma_take_framed(true, p, rest);
    lemma_take_u64(v.lock_round, enc_aggregated_vote(v.lock_votes) + (enc_u8_list(v.content)
        + (Seq::<u8>::empty())));
    lemma_aggregated_vote_round_trip(v.lock_votes, enc_u8_list(v.content) + (Seq::<u8>::empty()));
    assert(enc_each_u8(v.content).len() <= enc_u8_list(v.content).len());
    lemma_take_u8_list(v.content, Seq::<u8>::empty());
    assert(fields_wal_lock(p) == Ok::<WalLockView, DecodeError>(v));
}

impl WalLock {
    /// Appends the value as it stands on the wire.
    pub fn encode_to(&self, out: &mut Vec<u8>)
        ensures
            final(out)@ == old(out)@ + enc_wal_lock(self@),
    {
        let mut payload: Vec<u8> = Vec::new();
        put_u64(&mut payload, self.lock_round);
        self.lock_votes.encode_to(&mut payload);
        write_u8_list(&mut payload, &self.content);
        assert(payload@ =~= payload_wal_lock(self@));
        write_list(out, &payload);
    }

    /// The value as it stands on the wire.
    pub fn encode(&self) -> (r: Vec<u8>)
        ensures
            r@ == enc_wal_lock(self@),
    {
        let mut out: Vec<u8> = Vec::new();
        self.encode_to(&mut out);
        assert(out@ =~= enc_wal_lock(self@));
        out
    }

    /// Reads a value from the start of the input and hands it back with the rest of the input.
    pub fn decode_from<'a>(buf: &'a [u8]) -> (res: Result<(WalLock, &'a [u8]), DecodeError>)
        ensures
            reads(res, dec_wal_lock(buf@)),
    {
        let (p, rest) = read_payload(buf, true)?;
        let (lock_round, p) = read_u64(p)?;
        let (lock_votes, p) = AggregatedVote::decode_from(p)?;
        let (content, p) = read_u8_list(p)?;
        Ok((WalLock { lock_round, lock_votes, content }, rest))
    }

    /// Reads a value from the start of the input. What follows the value is not looked at.
    pub fn decode(buf: &[u8]) -> (res: Result<WalLock, DecodeError>)
        ensures
            match dec_wal_lock(buf@) {
                Ok((v, _)) => res is Ok && res->Ok_0@ == v,
                Err(e) => res is Err && res->Err_0 == e,
            },
    {
        let (v, _) = WalLock::decode_from(buf)?;
        Ok(v)
    }
}

/// The fields of a record of the write-ahead log on the wire, one after the other: the flag of the
/// lock, the height, the round, the step, the lock if there is one, and the update. Without a
/// lock the update follows the step.
pub open spec fn payload_wal_info(v: WalInfoView) -> Seq<u8> {
    enc_bool(v.lock is Some) + (enc_uint(v.height as nat) + (enc_uint(v.round as nat) + (enc_step(
        v.step,
    ) + (match v.lock {
        Some(lock) => enc_wal_lock(lock) + (enc_update_from(v.from) + (Seq::<u8>::empty())),
        None => enc_update_from(v.from) + (Seq::<u8>::empty()),
    }))))
}

/// A record of the write-ahead log on the wire: the list of its fields.
pub open spec fn enc_wal_info(v: WalInfoView) -> Seq<u8> {
    enc_list(payload_wal_info(v))
}

/// Takes the lock of a record, if the flag says that there is one, and the update.
pub open spec fn lock_and_from(has_lock: bool, p: Seq<u8>) -> Result<
    (Option<WalLockView>, UpdateFromView),
    DecodeError,
> {
    if has_lock {
        match dec_wal_lock(p) {
            Err(e) => Err(e),
            Ok((lock, r1)) => match dec_update_from(r1) {
                Err(e) => Err(e),
                Ok((from, _)) => Ok((Some(lock), from)),
            },
        }
    } else {
        match dec_update_from(p) {
            Err(e) => Err(e),
            Ok((from, _)) => Ok((None, from)),
        }
    }
}

/// Takes the fields of a record of the write-ahead log from a payload.
pub open spec fn fields_wal_info(p: Seq<u8>) -> Result<WalInfoView, DecodeError> {
    match take_bool(p) {
        Err(e) => Err(e),
        Ok((has_lock, r1)) => match take_u64_spec(r1) {
            Err(e) => Err(e),
            Ok((height, r2)) => match take_u64_spec(r2) {
                Err(e) => Err(e),
                Ok((round, r3)) => match dec_step(r3) {
                    Err(e) => Err(e),
                    Ok((step, r4)) => match lock_and_from(has_lock, r4) {
                        Err(e) => Err(e),
                        Ok((lock, from)) => Ok(WalInfoView { height, round, step, lock, from }),
                    },
                },
            },
        },
    }
}

/// Takes a record of the write-ahead log from the start of the input.
pub open spec fn dec_wal_info(buf: Seq<u8>) -> Result<(WalInfoView, Seq<u8>), DecodeError> {
    match take(buf, true) {
        Err(e) => Err(e),
        Ok((payload, rest)) => match fields_wal_info(payload) {
            Err(e) => Err(e),
            Ok(v) => Ok((v, rest)),
        },
    }
}

/// A record of the write-ahead log is read back as it was written.
pub proof fn lemma_wal_info_round_trip(v: WalInfoView, rest: Seq<u8>)
    requires
        enc_wal_info(v).len() <= usize::MAX,
    ensures
        dec_wal_info(enc_wal_info(v)
            + rest) == Ok::<(WalInfoView, Seq<u8>), DecodeError>((v, rest)),
{
    let p = payload_wal_info(v);
    lemma_take_framed(true, p, rest);
    let end = enc_update_from(v.from) + (Seq::<u8>::empty());
    let r4 = match v.lock {
        Some(lock) => enc_wal_lock(lock) + end,
        None => end,
    };
    let r3 = enc_step(v.step) + r4;
    let r2 = enc_uint(v.round as nat) + r3;
    let r1 = enc_uint(v.height as nat) + r2;
    assert(p == enc_bool(v.lock is Some) + r1);
    lemma_take_bool(v.lock is Some, r1);
    lemma_take_u64(v.height, r2);
    lemma_take_u64(v.round, r3);
    lemma_step_round_trip(v.step, r4);
    lemma_update_from_round_trip(v.from, Seq::<u8>::empty());
    match v.lock {
        Some(lock) => {
            lemma_wal_lock_round_trip(lock, end);
        },
        None => {},
    }
    assert(lock_and_from(v.lock is Some, r4)
        == Ok::<(Option<WalLockView>, UpdateFromView), DecodeError>(
        (v.lock, v.from),
    ));
    assert(fields_wal_info(p) == Ok::<WalInfoView, DecodeError>(v));
}

impl WalInfo {
    /// Appends the value as it stands on the wire.
    pub fn encode_to(&self, out: &mut Vec<u8>)
        ensures
            final(out)@ == old(out)@ + enc_wal_info(self@),
    {
        let mut payload: Vec<u8> = Vec::new();
        write_bool(&mut payload, self.lock.is_some());
        put_u64(&mut payload, self.height);
        put_u64(&mut payload, self.round);
        self.step.encode_to(&mut payload);
        let ghost front = payload@;
        let ghost back = match self@.lock {
            Some(lock) => enc_wal_lock(lock) + (enc_update_from(self.from@) + (Seq::<u8>::empty())),
            None => enc_update_from(self.from@) + (Seq::<u8>::empty()),
        };
        match &self.lock {
            Some(lock) => {
                lock.encode_to(&mut payload);
            },
            None => {},
        }
        self.from.encode_to(&mut payload);
        proof {
            assert(payload@ =~= front + back);
            let e3 = enc_step(self.step) + back;
            let e2 = enc_uint(self.round as nat) + e3;
            let e1 = enc_uint(self.height as nat) + e2;
            assert(front + back =~= enc_bool(self@.lock is Some) + e1);
            assert(payload_wal_info(self@) == enc_bool(self@.lock is Some) + e1);
        }
        write_list(out, &payload);
    }

    /// The value as it stands on the wire.
    pub fn encode(&self) -> (r: Vec<u8>)
        ensures
            r@ == enc_wal_info(self@),
    {
        let mut out: Vec<u8> = Vec::new();
        self.encode_to(&mut out);
        assert(out@ =~= enc_wal_info(self@));
        out
    }

    /// Reads a value from the start of the input and hands it back with the rest of the input.
    pub fn decode_from<'a>(buf: &'a [u8]) -> (res: Result<(WalInfo, &'a [u8]), DecodeError>)
        ensures
            reads(res, dec_wal_info(buf@)),
    {
        let (p, rest) = read_payload(buf, true)?;
        let (has_lock, p) = read_bool(p)?;
        let (height, p) = read_u64(p)?;
        let (round, p) = read_u64(p)?;
        let (step, p) = Step::decode_from(p)?;
        if has_lock {
            let (lock, p) = WalLock::decode_from(p)?;
            let (from, _) = UpdateFrom::decode_from(p)?;
            Ok((WalInfo { height, round, step, lock: Some(lock), from }, rest))
        } else {
            let (from, _) = UpdateFrom::decode_from(p)?;
            Ok((WalInfo { height, round, step, lock: None, from }, rest))
        }
    }

    /// Reads a value from the start of the input. What follows the value is not looked at.
    pub fn decode(buf: &[u8]) -> (res: Result<WalInfo, DecodeError>)
        ensures
            match dec_wal_info(buf@) {
                Ok((v, _)) => res is Ok && res->Ok_0@ == v,
                Err(e) => res is Err && res->Err_0 == e,
            },
    {
        let (v, _) = WalInfo::decode_from(buf)?;
        Ok(v)
    }
}

/// The wire format is canonical: two vote types that are written alike are the same.
pub proof fn lemma_vote_type_canonical(a: VoteType, b: VoteType)
    requires
        enc_vote_type(a) == enc_vote_type(b),
    ensures
        a == b,
{
    lemma_vote_type_round_trip(a, Seq::<u8>::empty());
    lemma_vote_type_round_trip(b, Seq::<u8>::empty());
}

/// The wire format is canonical: two steps that are written alike are the same.
pub proof fn lemma_step_canonical(a: Step, b: Step)
    requires
        enc_step(a) == enc_step(b),
    ensures
        a == b,
{
    lemma_step_round_trip(a, Seq::<u8>::empty());
    lemma_step_round_trip(b, Seq::<u8>::empty());
}

/// The wire format is canonical: two aggregated signatures that are written alike are the same.
pub proof fn lemma_aggregated_signature_canonical(a: AggregatedSignatureView,
    b: AggregatedSignatureView)
    requires
        enc_aggregated_signature(a).len() <= usize::MAX,
        enc_aggregated_signature(a) == enc_aggregated_signature(b),
    ensures
        a == b,
{
    lemma_aggregated_signature_round_trip(a, Seq::<u8>::empty());
    lemma_aggregated_signature_round_trip(b, Seq::<u8>::empty());
}

/// The wire format is canonical: two aggregated votes that are written alike are the same.
pub proof fn lemma_aggregated_vote_canonical(a: AggregatedVoteView, b: AggregatedVoteView)
    requires
        enc_aggregated_vote(a).len() <= usize::MAX,
        enc_aggregated_vote(a) == enc_aggregated_vote(b),
    ensures
        a == b,
{
    lemma_aggregated_vote_round_trip(a, Seq::<u8>::empty());
    lemma_aggregated_vote_round_trip(b, Seq::<u8>::empty());
}

/// The wire format is canonical: two votes that are written alike are the same.
pub proof fn lemma_vote_canonical(a: VoteView, b: VoteView)
    requires
        enc_vote(a).len() <= usize::MAX,
        enc_vote(a) == enc_vote(b),
    ensures
        a == b,
{
    lemma_vote_round_trip(a, Seq::<u8>::empty());
    lemma_vote_round_trip(b, Seq::<u8>::empty());
}

/// The wire format is canonical: two signed votes that are written alike are the same.
pub proof fn lemma_signed_vote_canonical(a: SignedVoteView, b: SignedVoteView)
    requires
        enc_signed_vote(a).len() <= usize::MAX,
        enc_signed_vote(a) == enc_signed_vote(b),
    ensures
        a == b,
{
    lemma_signed_vote_round_trip(a, Seq::<u8>::empty());
    lemma_signed_vote_round_trip(b, Seq::<u8>::empty());
}

/// The wire format is canonical: two proofs of lock change that are written alike are the same.
pub proof fn lemma_polc_canonical(a: PoLCView, b: PoLCView)
    requires
        enc_polc(a).len() <= usize::MAX,
        enc_polc(a) == enc_polc(b),
    ensures
        a == b,
{
    lemma_polc_round_trip(a, Seq::<u8>::empty());
    lemma_polc_round_trip(b, Seq::<u8>::empty());
}

/// The wire format is canonical: two proposals that are written alike are the same.
pub proof fn lemma_proposal_canonical(a: ProposalView, b: ProposalView)
    requires
        enc_proposal(a).len() <= usize::MAX,
        enc_proposal(a) == enc_proposal(b),
    ensures
        a == b,
{
    lemma_proposal_round_trip(a, Seq::<u8>::empty());
    lemma_proposal_round_trip(b, Seq::<u8>::empty());
}

/// The wire format is canonical: two signed proposals that are written alike are the same.
pub proof fn lemma_signed_proposal_canonical(a: SignedProposalView, b: SignedProposalView)
    requires
        enc_signed_proposal(a).len() <= usize::MAX,
        enc_signed_proposal(a) == enc_signed_proposal(b),
    ensures
        a == b,
{
    lemma_signed_proposal_round_trip(a, Seq::<u8>::empty());
    lemma_signed_proposal_round_trip(b, Seq::<u8>::empty());
}

/// The wire format is canonical: two proofs that are written alike are the same.
pub proof fn lemma_proof_canonical(a: ProofView, b: ProofView)
    requires
        enc_proof(a).len() <= usize::MAX,
        enc_proof(a) == enc_proof(b),
    ensures
        a == b,
{
    lemma_proof_round_trip(a, Seq::<u8>::empty());
    lemma_proof_round_trip(b, Seq::<u8>::empty());
}

/// The wire format is canonical: two commits that are written alike are the same.
pub proof fn lemma_commit_canonical(a: CommitView, b: CommitView)
    requires
        enc_commit(a).len() <= usize::MAX,
        enc_commit(a) == enc_commit(b),
    ensures
        a == b,
{
    lemma_commit_round_trip(a, Seq::<u8>::empty());
    lemma_commit_round_trip(b, Seq::<u8>::empty());
}

/// The wire format is canonical: two aggregated chokes that are written alike are the same.
pub proof fn lemma_aggregated_choke_canonical(a: AggregatedChokeView, b: AggregatedChokeView)
    requires
        enc_aggregated_choke(a).len() <= usize::MAX,
        enc_aggregated_choke(a) == enc_aggregated_choke(b),
    ensures
        a == b,
{
    lemma_aggregated_choke_round_trip(a, Seq::<u8>::empty());
    lemma_aggregated_choke_round_trip(b, Seq::<u8>::empty());
}

/// The wire format is canonical: two updates that are written alike are the same.
pub proof fn lemma_update_from_canonical(a: UpdateFromView, b: UpdateFromView)
    requires
        enc_update_from(a).len() <= usize::MAX,
        enc_update_from(a) == enc_update_from(b),
    ensures
        a == b,
{
    lemma_update_from_round_trip(a, Seq::<u8>::empty());
    lemma_update_from_round_trip(b, Seq::<u8>::empty());
}

/// The wire format is canonical: two chokes that are written alike are the same.
pub proof fn lemma_choke_canonical(a: ChokeView, b: ChokeView)
    requires
        enc_choke(a).len() <= usize::MAX,
        enc_choke(a) == enc_choke(b),
    ensures
        a == b,
{
    lemma_choke_round_trip(a, Seq::<u8>::empty());
    lemma_choke_round_trip(b, Seq::<u8>::empty());
}

/// The wire format is canonical: two signed chokes that are written alike are the same.
pub proof fn lemma_signed_choke_canonical(a: SignedChokeView, b: SignedChokeView)
    requires
        enc_signed_choke(a).len() <= usize::MAX,
        enc_signed_choke(a) == enc_signed_choke(b),
    ensures
        a == b,
{
    lemma_signed_choke_round_trip(a, Seq::<u8>::empty());
    lemma_signed_choke_round_trip(b, Seq::<u8>::empty());
}

/// The wire format is canonical: two locks of the write-ahead log that are written alike are the same.
pub proof fn lemma_wal_lock_canonical(a: WalLockView, b: WalLockView)
    requires
        enc_wal_lock(a).len() <= usize::MAX,
        enc_wal_lock(a) == enc_wal_lock(b),
    ensures
        a == b,
{
    lemma_wal_lock_round_trip(a, Seq::<u8>::empty());
    lemma_wal_lock_round_trip(b, Seq::<u8>::empty());
}

/// The wire format is canonical: two records of the write-ahead log that are written alike are the same.
pub proof fn lemma_wal_info_canonical(a: WalInfoView, b: WalInfoView)
    requires
        enc_wal_info(a).len() <= usize::MAX,
        enc_wal_info(a) == enc_wal_info(b),
    ensures
        a == b,
{
    lemma_wal_info_round_trip(a, Seq::<u8>::empty());
    lemma_wal_info_round_trip(b, Seq::<u8>::empty());
}

/// The fields of a node on the wire, one after the other.
pub open spec fn payload_node(v: NodeView) -> Seq<u8> {
    enc_bytes(v.address) + (enc_uint(v.propose_weight as nat) + (enc_uint(v.vote_weight as nat)
        + (Seq::<u8>::empty())))
}

/// A node on the wire: the list of its fields.
pub open spec fn enc_node(v: NodeView) -> Seq<u8> {
    enc_list(payload_node(v))
}

/// Takes the fields of a node from a payload.
pub open spec fn fields_node(p: Seq<u8>) -> Result<NodeView, DecodeError> {
    match take_bytes(p) {
        Err(e) => Err(e),
        Ok((address, r1)) => match take_u32_spec(r1) {
            Err(e) => Err(e),
            Ok((propose_weight, r2)) => match take_u32_spec(r2) {
                Err(e) => Err(e),
                Ok((vote_weight, r3)) => Ok(NodeView { address, propose_weight, vote_weight }),
            },
        },
    }
}

/// Takes a node from the start of the input.
pub open spec fn dec_node(buf: Seq<u8>) -> Result<(NodeView, Seq<u8>), DecodeError> {
    match take(buf, true) {
        Err(e) => Err(e),
        Ok((payload, rest)) => match fields_node(payload) {
            Err(e) => Err(e),
            Ok(v) => Ok((v, rest)),
        },
    }
}

/// A node is read back as it was written.
pub proof fn lemma_node_round_trip(v: NodeView, rest: Seq<u8>)
    requires
        enc_node(v).len() <= usize::MAX,
    ensures
        dec_node(enc_node(v) + rest) == Ok::<(NodeView, Seq<u8>), DecodeError>((v, rest)),
{
    let p = payload_node(v);
    lemma_take_framed(true, p, rest);
    assert(v.address.len() <= enc_bytes(v.address).len());
    lemma_take_bytes(v.address, enc_uint(v.propose_weight as nat)
        + (enc_uint(v.vote_weight as nat) + (Seq::<u8>::empty())));
    lemma_take_u32(v.propose_weight, enc_uint(v.vote_weight as nat) + (Seq::<u8>::empty()));
    lemma_take_u32(v.vote_weight, Seq::<u8>::empty());
    assert(fields_node(p) == Ok::<NodeView, DecodeError>(v));
}

impl Node {
    /// Appends the value as it stands on the wire.
    pub fn encode_to(&self, out: &mut Vec<u8>)
        ensures
            final(out)@ == old(out)@ + enc_node(self@),
    {
        let mut payload: Vec<u8> = Vec::new();
        put_bytes(&mut payload, self.address.as_slice());
        put_u32(&mut payload, self.propose_weight);
        put_u32(&mut payload, self.vote_weight);
        assert(payload@ =~= payload_node(self@));
        write_list(out, &payload);
    }

    /// The value as it stands on the wire.
    pub fn encode(&self) -> (r: Vec<u8>)
        ensures
            r@ == enc_node(self@),
    {
        let mut out: Vec<u8> = Vec::new();
        self.encode_to(&mut out);
        assert(out@ =~= enc_node(self@));
        out
    }

    /// Reads a value from the start of the input and hands it back with the rest of the input.
    pub fn decode_from<'a>(buf: &'a [u8]) -> (res: Result<(Node, &'a [u8]), DecodeError>)
        ensures
            reads(res, dec_node(buf@)),
    {
        let (p, rest) = read_payload(buf, true)?;
        let (address, p) = read_bytes(p)?;
        let (propose_weight, p) = read_u32(p)?;
        let (vote_weight, p) = read_u32(p)?;
        Ok((Node { address, propose_weight, vote_weight }, rest))
    }

    /// Reads a value from the start of the input. What follows the value is not looked at.
    pub fn decode(buf: &[u8]) -> (res: Result<Node, DecodeError>)
        ensures
            match dec_node(buf@) {
                Ok((v, _)) => res is Ok && res->Ok_0@ == v,
                Err(e) => res is Err && res->Err_0 == e,
            },
    {
        let (v, _) = Node::decode_from(buf)?;
        Ok(v)
    }
}

/// The fields of a timeout configuration on the wire, one after the other.
pub open spec fn payload_duration_config(v: DurationConfig) -> Seq<u8> {
    enc_uint(v.propose_ratio as nat) + (enc_uint(v.prevote_ratio as nat)
        + (enc_uint(v.precommit_ratio as nat) + (enc_uint(v.brake_ratio as nat)
        + (Seq::<u8>::empty()))))
}

/// A timeout configuration on the wire: the list of its fields.
pub open spec fn enc_duration_config(v: DurationConfig) -> Seq<u8> {
    enc_list(payload_duration_config(v))
}

/// Takes the fields of a timeout configuration from a payload.
pub open spec fn fields_duration_config(p: Seq<u8>) -> Result<DurationConfig, DecodeError> {
    match take_u64_spec(p) {
        Err(e) => Err(e),
        Ok((propose_ratio, r1)) => match take_u64_spec(r1) {
            Err(e) => Err(e),
            Ok((prevote_ratio, r2)) => match take_u64_spec(r2) {
                Err(e) => Err(e),
                Ok((precommit_ratio, r3)) => match take_u64_spec(r3) {
                    Err(e) => Err(e),
                    Ok((brake_ratio, r4)) => Ok(DurationConfig { propose_ratio, prevote_ratio,
                        precommit_ratio, brake_ratio }),
                },
            },
        },
    }
}

/// Takes a timeout configuration from the start of the input.
pub open spec fn dec_duration_config(buf: Seq<u8>)
    -> Result<(DurationConfig, Seq<u8>), DecodeError> {
    match take(buf, true) {
        Err(e) => Err(e),
        Ok((payload, rest)) => match fields_duration_config(payload) {
            Err(e) => Err(e),
            Ok(v) => Ok((v, rest)),
        },
    }
}

/// A timeout configuration is read back as it was written.
pub proof fn lemma_duration_config_round_trip(v: DurationConfig, rest: Seq<u8>)
    requires
        enc_duration_config(v).len() <= usize::MAX,
    ensures
        dec_duration_config(enc_duration_config(v)
            + rest) == Ok::<(DurationConfig, Seq<u8>), DecodeError>((v, rest)),
{
    let p = payload_duration_config(v);
    lemma_take_framed(true, p, rest);
    lemma_take_u64(v.propose_ratio, enc_uint(v.prevote_ratio as nat)
        + (enc_uint(v.precommit_ratio as nat) + (enc_uint(v.brake_ratio as nat)
        + (Seq::<u8>::empty()))));
    lemma_take_u64(v.prevote_ratio, enc_uint(v.precommit_ratio as nat)
        + (enc_uint(v.brake_ratio as nat) + (Seq::<u8>::empty())));
    lemma_take_u64(v.precommit_ratio, enc_uint(v.brake_ratio as nat) + (Seq::<u8>::empty()));
    lemma_take_u64(v.brake_ratio, Seq::<u8>::empty());
    assert(fields_duration_config(p) == Ok::<DurationConfig, DecodeError>(v));
}

impl DurationConfig {
    /// Appends the value as it stands on the wire.
    pub fn encode_to(&self, out: &mut Vec<u8>)
        ensures
            final(out)@ == old(out)@ + enc_duration_config(*self),
    {
        let mut payload: Vec<u8> = Vec::new();
        put_u64(&mut payload, self.propose_ratio);
        put_u64(&mut payload, self.prevote_ratio);
        put_u64(&mut payload, self.precommit_ratio);
        put_u64(&mut payload, self.brake_ratio);
        assert(payload@ =~= payload_duration_config(*self));
        write_list(out, &payload);
    }

    /// The value as it stands on the wire.
    pub fn encode(&self) -> (r: Vec<u8>)
        ensures
            r@ == enc_duration_config(*self),
    {
        let mut out: Vec<u8> = Vec::new();
        self.encode_to(&mut out);
        assert(out@ =~= enc_duration_config(*self));
        out
    }

    /// Reads a value from the start of the input and hands it back with the rest of the input.
    pub fn decode_from<'a>(buf: &'a [u8]) -> (res: Result<(DurationConfig, &'a [u8]), DecodeError>)
        ensures
            reads(res, dec_duration_config(buf@)),
    {
        let (p, rest) = read_payload(buf, true)?;
        let (propose_ratio, p) = read_u64(p)?;
        let (prevote_ratio, p) = read_u64(p)?;
        let (precommit_ratio, p) = read_u64(p)?;
        let (brake_ratio, p) = read_u64(p)?;
        Ok((DurationConfig { propose_ratio, prevote_ratio, precommit_ratio, brake_ratio }, rest))
    }

    /// Reads a value from the start of the input. What follows the value is not looked at.
    pub fn decode(buf: &[u8]) -> (res: Result<DurationConfig, DecodeError>)
        ensures
            match dec_duration_config(buf@) {
                Ok((v, _)) => res is Ok && res->Ok_0 == v,
                Err(e) => res is Err && res->Err_0 == e,
            },
    {
        let (v, _) = DurationConfig::decode_from(buf)?;
        Ok(v)
    }
}

/// The wire format is canonical: two nodes that are written alike are the same.
pub proof fn lemma_node_canonical(a: NodeView, b: NodeView)
    requires
        enc_node(a).len() <= usize::MAX,
        enc_node(a) == enc_node(b),
    ensures
        a == b,
{
    lemma_node_round_trip(a, Seq::<u8>::empty());
    lemma_node_round_trip(b, Seq::<u8>::empty());
}

/// The wire format is canonical: two timeout configurations that are written alike are the same.
pub proof fn lemma_duration_config_canonical(a: DurationConfig, b: DurationConfig)
    requires
        enc_duration_config(a).len() <= usize::MAX,
        enc_duration_config(a) == enc_duration_config(b),
    ensures
        a == b,
{
    lemma_duration_config_round_trip(a, Seq::<u8>::empty());
    lemma_duration_config_round_trip(b, Seq::<u8>::empty());
}

/// The nodes one after the other.
pub open spec fn enc_each_node(nodes: Seq<NodeView>) -> Seq<u8>
    decreases nodes.len(),
{
    if nodes.len() == 0 {
        Seq::empty()
    } else {
        enc_node(nodes[0]) + enc_each_node(nodes.skip(1))
    }
}

/// A list of nodes on the wire.
pub open spec fn enc_nodes(nodes: Seq<NodeView>) -> Seq<u8> {
    enc_list(enc_each_node(nodes))
}

/// Takes nodes until the payload ends.
pub open spec fn take_each_node(payload: Seq<u8>) -> Result<Seq<NodeView>, DecodeError>
    decreases payload.len(),
{
    if payload.len() == 0 {
        Ok(Seq::empty())
    } else {
        match dec_node(payload) {
            Err(e) => Err(e),
            Ok((v, rest)) => if rest.len() >= payload.len() {
                Err(DecodeError::InputTooShort)
            } else {
                match take_each_node(rest) {
                    Err(e) => Err(e),
                    Ok(more) => Ok(seq![v] + more),
                }
            },
        }
    }
}

/// A list of nodes at the start of the input.
pub open spec fn dec_nodes(buf: Seq<u8>) -> Result<(Seq<NodeView>, Seq<u8>), DecodeError> {
    match take(buf, true) {
        Err(e) => Err(e),
        Ok((payload, rest)) => match take_each_node(payload) {
            Err(e) => Err(e),
            Ok(items) => Ok((items, rest)),
        },
    }
}

/// Writes a list of nodes.
pub fn write_nodes(out: &mut Vec<u8>, nodes: &Vec<Node>)
    ensures
        final(out)@ == old(out)@ + enc_nodes(node_views(nodes@)),
{
    let ghost all = node_views(nodes@);
    let mut payload: Vec<u8> = Vec::new();
    let mut i: usize = 0;
    proof {
        assert(all.skip(0) =~= all);
        assert(payload@ + enc_each_node(all) =~= enc_each_node(all));
    }
    while i < nodes.len()
        invariant
            i <= nodes.len(),
            all == node_views(nodes@),
            payload@ + enc_each_node(all.skip(i as int)) == enc_each_node(all),
        decreases nodes.len() - i,
    {
        let ghost before = payload@;
        nodes[i].encode_to(&mut payload);
        proof {
            assert(all.skip(i as int)[0] == nodes@[i as int]@);
            assert(all.skip(i as int).skip(1) =~= all.skip(i + 1));
            assert(payload@ + enc_each_node(all.skip(i + 1)) =~= before + enc_each_node(
                all.skip(i as int),
            ));
        }
        i += 1;
    }
    proof {
        assert(enc_each_node(all.skip(i as int)) =~= Seq::<u8>::empty());
        assert(payload@ =~= enc_each_node(all));
    }
    write_list(out, &payload);
}

/// Reads a list of nodes.
pub fn read_nodes<'a>(buf: &'a [u8]) -> (res: Result<(Vec<Node>, &'a [u8]), DecodeError>)
    ensures
        match dec_nodes(buf@) {
            Ok((items, rest)) => res is Ok && node_views(res->Ok_0.0@) == items && res->Ok_0.1@
                == rest,
            Err(e) => res is Err && res->Err_0 == e,
        },
{
    let (payload, rest) = read_payload(buf, true)?;
    let mut items: Vec<Node> = Vec::new();
    let mut left = payload;
    proof {
        assert(node_views(items@) =~= Seq::<NodeView>::empty());
        let more = take_each_node(left@);
        if more is Ok {
            assert(node_views(items@) + more->Ok_0 =~= more->Ok_0);
        }
    }
    while left.len() > 0
        invariant
            take(buf@, true) == Ok::<(Seq<u8>, Seq<u8>), DecodeError>((payload@, rest@)),
            take_each_node(payload@) == match take_each_node(left@) {
                Ok(more) => Ok::<Seq<NodeView>, DecodeError>(node_views(items@) + more),
                Err(e) => Err(e),
            },
        decreases left.len(),
    {
        proof {
            lemma_take_consumes(left@, true);
        }
        let (v, next) = Node::decode_from(left)?;
        let ghost before = node_views(items@);
        items.push(v);
        proof {
            assert(node_views(items@) =~= before.push(v@));
            let more = take_each_node(next@);
            if more is Ok {
                assert(before.push(v@) + more->Ok_0 =~= before + (seq![v@] + more->Ok_0));
            }
        }
        left = next;
    }
    proof {
        assert(node_views(items@) + Seq::<NodeView>::empty() =~= node_views(items@));
    }
    Ok((items, rest))
}

/// What is written for each node of a list is read back as the list.
pub proof fn lemma_take_each_node(nodes: Seq<NodeView>)
    requires
        enc_each_node(nodes).len() <= usize::MAX,
    ensures
        take_each_node(enc_each_node(nodes)) == Ok::<Seq<NodeView>, DecodeError>(nodes),
    decreases nodes.len(),
{
    if nodes.len() > 0 {
        let tail = enc_each_node(nodes.skip(1));
        let payload = enc_each_node(nodes);
        assert(payload == enc_node(nodes[0]) + tail);
        lemma_node_round_trip(nodes[0], tail);
        lemma_take_each_node(nodes.skip(1));
        assert(seq![nodes[0]] + nodes.skip(1) =~= nodes);
        assert(enc_node(nodes[0]).len() > 0);
        assert(dec_node(payload) == Ok::<(NodeView, Seq<u8>), DecodeError>((nodes[0], tail)));
        assert(tail.len() < payload.len());
    } else {
        assert(nodes =~= Seq::<NodeView>::empty());
    }
}

/// A list of nodes is read back as it was written.
pub proof fn lemma_nodes_round_trip(nodes: Seq<NodeView>, rest: Seq<u8>)
    requires
        enc_nodes(nodes).len() <= usize::MAX,
    ensures
        dec_nodes(enc_nodes(nodes) + rest) == Ok::<(Seq<NodeView>, Seq<u8>), DecodeError>(
            (nodes, rest),
        ),
{
    lemma_take_framed(true, enc_each_node(nodes), rest);
    lemma_take_each_node(nodes);
}

/// The block interval of a status on the wire, if the status names one.
pub open spec fn enc_interval(interval: Option<u64>, tail: Seq<u8>) -> Seq<u8> {
    match interval {
        Some(i) => enc_uint(i as nat) + tail,
        None => tail,
    }
}

/// The timeout configuration of a status on the wire, if the status names one.
pub open spec fn enc_timer_config(config: Option<DurationConfig>, tail: Seq<u8>) -> Seq<u8> {
    match config {
        Some(c) => enc_duration_config(c) + tail,
        None => tail,
    }
}

/// The fields of a status on the wire, one after the other: the flag of the block interval, the
/// flag of the timeout configuration, the height, the block interval if there is one, the timeout
/// configuration if there is one, and the authority list.
pub open spec fn payload_status(v: StatusView) -> Seq<u8> {
    enc_bool(v.interval is Some) + (enc_bool(v.timer_config is Some) + (enc_uint(v.height as nat)
        + enc_interval(
        v.interval,
        enc_timer_config(v.timer_config, enc_nodes(v.authority_list) + (Seq::<u8>::empty())),
    )))
}

/// A status on the wire: the list of its fields.
pub open spec fn enc_status(v: StatusView) -> Seq<u8> {
    enc_list(payload_status(v))
}

/// Takes the block interval of a status, if the flag says that there is one.
pub open spec fn take_interval(has: bool, r: Seq<u8>)
    -> Result<(Option<u64>, Seq<u8>), DecodeError> {
    if has {
        match take_u64_spec(r) {
            Err(e) => Err(e),
            Ok((i, rest)) => Ok((Some(i), rest)),
        }
    } else {
        Ok((None, r))
    }
}

/// Takes the timeout configuration of a status, if the flag says that there is one.
pub open spec fn take_timer_config(has: bool, r: Seq<u8>) -> Result<
    (Option<DurationConfig>, Seq<u8>),
    DecodeError,
> {
    if has {
        match dec_duration_config(r) {
            Err(e) => Err(e),
            Ok((c, rest)) => Ok((Some(c), rest)),
        }
    } else {
        Ok((None, r))
    }
}

/// Takes the fields of a status from a payload.
pub open spec fn fields_status(r: Seq<u8>) -> Result<StatusView, DecodeError> {
    match take_bool(r) {
        Err(e) => Err(e),
        Ok((has_interval, r1)) => match take_bool(r1) {
            Err(e) => Err(e),
            Ok((has_config, r2)) => match take_u64_spec(r2) {
                Err(e) => Err(e),
                Ok((height, r3)) => match take_interval(has_interval, r3) {
                    Err(e) => Err(e),
                    Ok((interval, r4)) => match take_timer_config(has_config, r4) {
                        Err(e) => Err(e),
                        Ok((timer_config, r5)) => match dec_nodes(r5) {
                            Err(e) => Err(e),
                            Ok((authority_list, _)) => Ok(
                                StatusView { height, interval, timer_config, authority_list },
                            ),
                        },
                    },
                },
            },
        },
    }
}

/// Takes a status from the start of the input.
pub open spec fn dec_status(buf: Seq<u8>) -> Result<(StatusView, Seq<u8>), DecodeError> {
    match take(buf, true) {
        Err(e) => Err(e),
        Ok((payload, rest)) => match fields_status(payload) {
            Err(e) => Err(e),
            Ok(v) => Ok((v, rest)),
        },
    }
}

/// A status is read back as it was written.
pub proof fn lemma_status_round_trip(v: StatusView, rest: Seq<u8>)
    requires
        enc_status(v).len() <= usize::MAX,
    ensures
        dec_status(enc_status(v) + rest) == Ok::<(StatusView, Seq<u8>), DecodeError>((v, rest)),
{
    let p = payload_status(v);
    lemma_take_framed(true, p, rest);
    let r5 = enc_nodes(v.authority_list) + (Seq::<u8>::empty());
    let r4 = enc_timer_config(v.timer_config, r5);
    let r3 = enc_interval(v.interval, r4);
    let r2 = enc_uint(v.height as nat) + r3;
    let r1 = enc_bool(v.timer_config is Some) + r2;
    assert(p == enc_bool(v.interval is Some) + r1);
    lemma_take_bool(v.interval is Some, r1);
    lemma_take_bool(v.timer_config is Some, r2);
    lemma_take_u64(v.height, r3);
    match v.interval {
        Some(i) => {
            lemma_take_u64(i, r4);
        },
        None => {},
    }
    assert(take_interval(v.interval is Some, r3) == Ok::<(Option<u64>, Seq<u8>), DecodeError>(
        (v.interval, r4),
    ));
    match v.timer_config {
        Some(c) => {
            lemma_duration_config_round_trip(c, r5);
        },
        None => {},
    }
    assert(take_timer_config(v.timer_config is Some, r4) == Ok::<
        (Option<DurationConfig>, Seq<u8>),
        DecodeError,
    >((v.timer_config, r5)));
    lemma_nodes_round_trip(v.authority_list, Seq::<u8>::empty());
    assert(fields_status(p) == Ok::<StatusView, DecodeError>(v));
}

/// The wire format is canonical: two statuses that are written alike are the same.
pub proof fn lemma_status_canonical(a: StatusView, b: StatusView)
    requires
        enc_status(a).len() <= usize::MAX,
        enc_status(a) == enc_status(b),
    ensures
        a == b,
{
    lemma_status_round_trip(a, Seq::<u8>::empty());
    lemma_status_round_trip(b, Seq::<u8>::empty());
}

impl Status {
    /// Appends the value as it stands on the wire.
    pub fn encode_to(&self, out: &mut Vec<u8>)
        ensures
            final(out)@ == old(out)@ + enc_status(self@),
    {
        let mut payload: Vec<u8> = Vec::new();
        write_bool(&mut payload, self.interval.is_some());
        write_bool(&mut payload, self.timer_config.is_some());
        put_u64(&mut payload, self.height);
        let ghost front = payload@;
        let ghost r5 = enc_nodes(self@.authority_list) + (Seq::<u8>::empty());
        let ghost r4 = enc_timer_config(self.timer_config, r5);
        let ghost r3 = enc_interval(self.interval, r4);
        match self.interval {
            Some(interval) => {
                put_u64(&mut payload, interval);
            },
            None => {},
        }
        match &self.timer_config {
            Some(config) => {
                config.encode_to(&mut payload);
            },
            None => {},
        }
        write_nodes(&mut payload, &self.authority_list);
        proof {
            assert(payload@ =~= front + r3);
            let r2 = enc_uint(self.height as nat) + r3;
            let r1 = enc_bool(self.timer_config is Some) + r2;
            assert(front + r3 =~= enc_bool(self.interval is Some) + r1);
            assert(payload_status(self@) == enc_bool(self.interval is Some) + r1);
        }
        write_list(out, &payload);
    }

    /// The value as it stands on the wire.
    pub fn encode(&self) -> (r: Vec<u8>)
        ensures
            r@ == enc_status(self@),
    {
        let mut out: Vec<u8> = Vec::new();
        self.encode_to(&mut out);
        assert(out@ =~= enc_status(self@));
        out
    }

    /// Reads a value from the start of the input and hands it back with the rest of the input.
    pub fn decode_from<'a>(buf: &'a [u8]) -> (res: Result<(Status, &'a [u8]), DecodeError>)
        ensures
            reads(res, dec_status(buf@)),
    {
        let (p, rest) = read_payload(buf, true)?;
        let (has_interval, p) = read_bool(p)?;
        let (has_config, p) = read_bool(p)?;
        let (height, p) = read_u64(p)?;
        let (interval, p) = if has_interval {
            let (interval, p) = read_u64(p)?;
            (Some(interval), p)
        } else {
            (None, p)
        };
        let (timer_config, p) = if has_config {
            let (config, p) = DurationConfig::decode_from(p)?;
            (Some(config), p)
        } else {
            (None, p)
        };
        let (authority_list, _) = read_nodes(p)?;
        Ok((Status { height, interval, timer_config, authority_list }, rest))
    }

    /// Reads a value from the start of the input. What follows the value is not looked at.
    pub fn decode(buf: &[u8]) -> (res: Result<Status, DecodeError>)
        ensures
            match dec_status(buf@) {
                Ok((v, _)) => res is Ok && res->Ok_0@ == v,
                Err(e) => res is Err && res->Err_0 == e,
            },
    {
        let (v, _) = Status::decode_from(buf)?;
        Ok(v)
    }
}

} // verus!
