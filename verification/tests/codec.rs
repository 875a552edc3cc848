use overlord::codec::rlp::DecodeError;
use overlord::smr::smr_types::Step;
use overlord::types::{
    AggregatedChoke, AggregatedSignature, AggregatedVote, Choke, Commit, Node, PoLC, Proof, Proposal,
    SignedChoke, SignedProposal, SignedVote, Status, UpdateFrom, Vote, VoteType,
};
use overlord::DurationConfig;
use overlord::wal::wal_type::{WalInfo, WalLock};
use rand::random;

fn gen_bytes(len: usize) -> Vec<u8> {
    (0..len).map(|_| random::<u8>()).collect::<Vec<_>>()
}

fn gen_hash() -> Vec<u8> {
    gen_bytes(16)
}

fn gen_address() -> Vec<u8> {
    gen_bytes(32)
}

fn gen_signature() -> Vec<u8> {
    gen_bytes(64)
}

fn gen_aggr_signature() -> AggregatedSignature {
    AggregatedSignature { signature: gen_signature(), address_bitmap: gen_bytes(8) }
}

/// The content of a block as the application would serialize it: a height and 128 numbers.
fn gen_pill() -> Vec<u8> {
    let height = random::<u64>();
    let epoch = (0..128).map(|_| random::<u64>()).collect::<Vec<_>>();
    bcs::to_bytes(&(height, epoch)).unwrap()
}

fn gen_aggregated_vote(vote_type: u8) -> AggregatedVote {
    AggregatedVote {
        signature: gen_aggr_signature(),
        vote_type: VoteType::try_from(vote_type).unwrap(),
        height: random::<u64>(),
        round: random::<u64>(),
        block_hash: gen_hash(),
        leader: gen_address(),
    }
}

fn gen_polc() -> PoLC {
    PoLC { lock_round: random::<u64>(), lock_votes: gen_aggregated_vote(1u8) }
}

fn gen_proposal(content: Vec<u8>, lock: Option<PoLC>) -> Proposal {
    Proposal {
        height: random::<u64>(),
        round: random::<u64>(),
        content,
        block_hash: gen_hash(),
        lock,
        proposer: gen_address(),
    }
}

fn gen_signed_proposal(content: Vec<u8>, lock: Option<PoLC>) -> SignedProposal {
    SignedProposal { signature: gen_signature(), proposal: gen_proposal(content, lock) }
}

fn gen_vote(vote_type: u8) -> Vote {
    Vote {
        height: random::<u64>(),
        round: random::<u64>(),
        vote_type: VoteType::try_from(vote_type).unwrap(),
        block_hash: gen_hash(),
    }
}

fn gen_signed_vote(vote_type: u8) -> SignedVote {
    SignedVote { signature: gen_signature(), vote: gen_vote(vote_type), voter: gen_address() }
}

fn gen_proof() -> Proof {
    Proof {
        height: random::<u64>(),
        round: random::<u64>(),
        block_hash: gen_hash(),
        signature: gen_aggr_signature(),
    }
}

fn gen_commit(content: Vec<u8>) -> Commit {
    Commit { height: random::<u64>(), content, proof: gen_proof() }
}

fn gen_aggregated_choke() -> AggregatedChoke {
    AggregatedChoke {
        height: random::<u64>(),
        round: random::<u64>(),
        signature: gen_signature(),
        voters: vec![gen_address(), gen_address()],
    }
}

fn gen_signed_choke(from: UpdateFrom) -> SignedChoke {
    SignedChoke {
        signature: gen_signature(),
        address: gen_address(),
        choke: Choke { height: random::<u64>(), round: random::<u64>(), from },
    }
}

fn gen_status(time: Option<u64>, is_update_config: bool) -> Status {
    let config = if is_update_config {
        Some(DurationConfig {
            propose_ratio: random::<u64>(),
            prevote_ratio: random::<u64>(),
            precommit_ratio: random::<u64>(),
            brake_ratio: random::<u64>(),
        })
    } else {
        None
    };

    Status {
        height: random::<u64>(),
        interval: time,
        timer_config: config,
        authority_list: vec![Node::new(gen_address())],
    }
}

fn gen_wal_info(content: Option<Vec<u8>>) -> WalInfo {
    let lock = match content {
        Some(tmp) => {
            let polc = gen_polc();
            Some(WalLock { lock_round: polc.lock_round, lock_votes: polc.lock_votes, content: tmp })
        }
        None => None,
    };
    WalInfo {
        height: random::<u64>(),
        round: random::<u64>(),
        step: Step::Precommit,
        lock,
        from: UpdateFrom::ChokeQC(gen_aggregated_choke()),
    }
}

#[test]
fn test_pill_codec() {
    for _ in 0..100 {
        let pill: (u64, Vec<u64>) =
            (random::<u64>(), (0..128).map(|_| random::<u64>()).collect::<Vec<_>>());
        let decode: (u64, Vec<u64>) = bcs::from_bytes(&bcs::to_bytes(&pill).unwrap()).unwrap();
        assert_eq!(decode, pill);
    }
}

#[test]
fn test_types_rlp() {
    // Test SignedProposal
    let signed_proposal = gen_signed_proposal(gen_pill(), Some(gen_polc()));
    let res = SignedProposal::decode(&signed_proposal.encode()).unwrap();
    assert_eq!(signed_proposal, res);

    let signed_proposal = gen_signed_proposal(gen_pill(), None);
    let res = SignedProposal::decode(&signed_proposal.encode()).unwrap();
    assert_eq!(signed_proposal, res);

    // Test SignedVote
    let signed_vote = gen_signed_vote(2u8);
    let res = SignedVote::decode(&signed_vote.encode()).unwrap();
    assert_eq!(signed_vote, res);

    let signed_vote = gen_signed_vote(1u8);
    let res = SignedVote::decode(&signed_vote.encode()).unwrap();
    assert_eq!(signed_vote, res);

    // Test AggregatedVote
    let aggregated_vote = gen_aggregated_vote(2u8);
    let res = AggregatedVote::decode(&aggregated_vote.encode()).unwrap();
    assert_eq!(aggregated_vote, res);

    let aggregated_vote = gen_aggregated_vote(1u8);
    let res = AggregatedVote::decode(&aggregated_vote.encode()).unwrap();
    assert_eq!(aggregated_vote, res);

    // Test Commit
    let commit = gen_commit(gen_pill());
    let res = Commit::decode(&commit.encode()).unwrap();
    assert_eq!(commit, res);

    // Test Status
    let status = gen_status(None, true);
    let res = Status::decode(&status.encode()).unwrap();
    assert_eq!(status, res);

    // Test Status
    let status = gen_status(Some(3000), false);
    let res = Status::decode(&status.encode()).unwrap();
    assert_eq!(status, res);

    // Test Aggregated Choke
    let aggregated_choke = gen_aggregated_choke();
    let res = AggregatedChoke::decode(&aggregated_choke.encode()).unwrap();
    assert_eq!(aggregated_choke, res);

    // Test Signed Choke
    let signed_choke = gen_signed_choke(UpdateFrom::PrevoteQC(gen_aggregated_vote(1u8)));
    let res = SignedChoke::decode(&signed_choke.encode()).unwrap();
    assert_eq!(signed_choke, res);

    let signed_choke = gen_signed_choke(UpdateFrom::PrecommitQC(gen_aggregated_vote(2u8)));
    let res = SignedChoke::decode(&signed_choke.encode()).unwrap();
    assert_eq!(signed_choke, res);

    let signed_choke = gen_signed_choke(UpdateFrom::ChokeQC(gen_aggregated_choke()));
    let res = SignedChoke::decode(&signed_choke.encode()).unwrap();
    assert_eq!(signed_choke, res);

    // Test Wal Info
    let wal_info = gen_wal_info(Some(gen_pill()));
    let res = WalInfo::decode(&wal_info.encode()).unwrap();
    assert_eq!(wal_info, res);

    let wal_info = gen_wal_info(None);
    let res = WalInfo::decode(&wal_info.encode()).unwrap();
    assert_eq!(wal_info, res);
}

#[test]
fn vote_goes_over_the_wire() {
    let vote = Vote { height: 1, round: 2, vote_type: VoteType::Prevote, block_hash: vec![0xab; 32] };
    let bytes = vote.encode();
    assert_eq!(Vote::decode(&bytes).unwrap(), vote);
}

#[test]
fn vote_type_is_a_list_of_its_number() {
    assert_eq!(VoteType::Prevote.encode(), vec![0xc1, 0x01]);
    assert_eq!(VoteType::Precommit.encode(), vec![0xc1, 0x02]);
    assert_eq!(VoteType::decode(&[0xc1, 0x01]).unwrap(), VoteType::Prevote);
    assert_eq!(VoteType::decode(&[0xc1, 0x02]).unwrap(), VoteType::Precommit);
}

#[test]
fn unknown_vote_type_is_an_error() {
    assert_eq!(VoteType::decode(&[0xc1, 0x03]), Err(DecodeError::InvalidVoteType));
    assert_eq!(VoteType::decode(&[0xc1, 0x80]), Err(DecodeError::InvalidVoteType));
}

#[test]
fn step_is_a_list_of_its_number() {
    assert_eq!(Step::Propose.encode(), vec![0xc1, 0x80]);
    assert_eq!(Step::Prevote.encode(), vec![0xc1, 0x01]);
    assert_eq!(Step::Precommit.encode(), vec![0xc1, 0x02]);
    assert_eq!(Step::Brake.encode(), vec![0xc1, 0x03]);
    assert_eq!(Step::Commit.encode(), vec![0xc1, 0x04]);
    for step in [Step::Propose, Step::Prevote, Step::Precommit, Step::Brake, Step::Commit] {
        assert_eq!(Step::decode(&step.encode()).unwrap(), step);
    }
}

#[test]
fn unknown_step_is_an_error() {
    assert_eq!(Step::decode(&[0xc1, 0x05]), Err(DecodeError::InvalidStep));
}

#[test]
fn vote_has_the_bytes_of_its_fields_in_order() {
    let vote = Vote { height: 1, round: 0, vote_type: VoteType::Precommit, block_hash: vec![] };
    // list of 5 bytes: height 1, round 0, the vote type as list of 2, the empty hash
    assert_eq!(vote.encode(), vec![0xc5, 0x01, 0x80, 0xc1, 0x02, 0x80]);
    let vote = Vote {
        height: 0x0102,
        round: 0x80,
        vote_type: VoteType::Prevote,
        block_hash: vec![0x7f],
    };
    assert_eq!(vote.encode(), vec![0xc8, 0x82, 0x01, 0x02, 0x81, 0x80, 0xc1, 0x01, 0x7f]);
    let vote = Vote { height: 0, round: 0, vote_type: VoteType::Prevote, block_hash: vec![0x80] };
    assert_eq!(vote.encode(), vec![0xc6, 0x80, 0x80, 0xc1, 0x01, 0x81, 0x80]);
}

#[test]
fn numbers_and_byte_strings_are_written_as_the_rlp_crate_writes_them() {
    for height in [0u64, 1, 0x7f, 0x80, 0xff, 0x100, 0xffff_ffff, u64::MAX] {
        for hash in [vec![], vec![0u8], vec![0x7f], vec![0x80], vec![1u8; 55], vec![2u8; 56], vec![3u8; 300]] {
            let vote = Vote { height, round: 7, vote_type: VoteType::Prevote, block_hash: hash.clone() };
            let mut payload = Vec::new();
            payload.extend_from_slice(&alloy_rlp::encode(height));
            payload.extend_from_slice(&alloy_rlp::encode(7u64));
            payload.extend_from_slice(&[0xc1, 0x01]);
            payload.extend_from_slice(&alloy_rlp::encode(&hash[..]));
            let mut expected = Vec::new();
            alloy_rlp::Header { list: true, payload_length: payload.len() }.encode(&mut expected);
            expected.extend_from_slice(&payload);
            assert_eq!(vote.encode(), expected);
            assert_eq!(Vote::decode(&expected).unwrap(), vote);
        }
    }
}

#[test]
fn content_is_a_list_of_its_bytes() {
    let commit = Commit {
        height: 3,
        content: vec![0x00, 0x01, 0x7f, 0x80, 0xff],
        proof: Proof {
            height: 3,
            round: 1,
            block_hash: vec![0xaa],
            signature: AggregatedSignature { signature: vec![0xbb], address_bitmap: vec![0xf0] },
        },
    };
    let content: Vec<u8> = alloy_rlp::encode(vec![0x00u8, 0x01, 0x7f, 0x80, 0xff]);
    assert_eq!(content, vec![0xc7, 0x80, 0x01, 0x7f, 0x81, 0x80, 0x81, 0xff]);
    // the proof is a list of 9 bytes, the commit a list of 1 + 8 + 10 bytes
    let proof = vec![0xc9, 0x03, 0x01, 0x81, 0xaa, 0xc4, 0x81, 0xbb, 0x81, 0xf0];
    let mut expected = vec![0xc0 + 1 + 8 + 10, 0x03];
    expected.extend_from_slice(&content);
    expected.extend_from_slice(&proof[..]);
    assert_eq!(commit.encode(), expected);
    assert_eq!(Commit::decode(&expected).unwrap(), commit);
}

#[test]
fn proposal_begins_with_the_flag_of_its_lock() {
    let proposal = Proposal {
        height: 1,
        round: 0,
        content: vec![9],
        block_hash: vec![0x11, 0x22],
        lock: None,
        proposer: vec![0x33],
    };
    assert_eq!(
        proposal.encode(),
        vec![0xc9, 0x80, 0x01, 0x80, 0xc1, 0x09, 0x82, 0x11, 0x22, 0x33]
    );
    let polc = PoLC {
        lock_round: 0,
        lock_votes: AggregatedVote {
            signature: AggregatedSignature { signature: vec![], address_bitmap: vec![] },
            vote_type: VoteType::Prevote,
            height: 1,
            round: 0,
            block_hash: vec![0x11, 0x22],
            leader: vec![],
        },
    };
    let locked = Proposal { round: 1, lock: Some(polc), ..proposal.clone() };
    let bytes = locked.encode();
    assert_eq!(bytes[1], 0x01);
    assert_eq!(
        bytes,
        vec![
            0xd7, 0x01, 0x01, 0x01, 0xc1, 0x09, 0x82, 0x11, 0x22, // flag, height, round, content, hash
            0xcd, 0x80, 0xcb, 0xc2, 0x80, 0x80, 0xc1, 0x01, 0x01, 0x80, 0x82, 0x11, 0x22, 0x80, // lock
            0x33, // proposer
        ]
    );
    assert_eq!(Proposal::decode(&bytes).unwrap(), locked);
    assert_eq!(Proposal::decode(&proposal.encode()).unwrap(), proposal);
}

#[test]
fn signed_proposal_is_signature_then_proposal() {
    let proposal = Proposal {
        height: 1,
        round: 0,
        content: vec![],
        block_hash: vec![],
        lock: None,
        proposer: vec![],
    };
    let signed = SignedProposal { signature: vec![0x99, 0x98], proposal };
    assert_eq!(
        signed.encode(),
        vec![0xca, 0x82, 0x99, 0x98, 0xc6, 0x80, 0x01, 0x80, 0xc0, 0x80, 0x80]
    );
    assert_eq!(SignedProposal::decode(&signed.encode()).unwrap(), signed);
}

#[test]
fn update_from_has_a_tag() {
    let qc = AggregatedVote {
        signature: AggregatedSignature { signature: vec![], address_bitmap: vec![] },
        vote_type: VoteType::Precommit,
        height: 0,
        round: 0,
        block_hash: vec![],
        leader: vec![],
    };
    let qc_bytes = vec![0xc9, 0xc2, 0x80, 0x80, 0xc1, 0x02, 0x80, 0x80, 0x80, 0x80];
    assert_eq!(qc.encode(), qc_bytes);
    let mut prevote = vec![0xcb, 0x80];
    prevote.extend_from_slice(&qc_bytes);
    assert_eq!(UpdateFrom::PrevoteQC(qc.clone()).encode(), prevote);
    let mut precommit = vec![0xcb, 0x01];
    precommit.extend_from_slice(&qc_bytes);
    assert_eq!(UpdateFrom::PrecommitQC(qc.clone()).encode(), precommit);
    let choke = AggregatedChoke { height: 1, round: 3, signature: vec![5], voters: vec![vec![1], vec![0x80]] };
    assert_eq!(
        UpdateFrom::ChokeQC(choke.clone()).encode(),
        vec![0xc9, 0x02, 0xc7, 0x01, 0x03, 0x05, 0xc3, 0x01, 0x81, 0x80]
    );
    assert_eq!(UpdateFrom::decode(&prevote).unwrap(), UpdateFrom::PrevoteQC(qc.clone()));
    assert_eq!(UpdateFrom::decode(&precommit).unwrap(), UpdateFrom::PrecommitQC(qc));
    assert_eq!(
        UpdateFrom::decode(&[0xc9, 0x02, 0xc7, 0x01, 0x03, 0x05, 0xc3, 0x01, 0x81, 0x80]).unwrap(),
        UpdateFrom::ChokeQC(choke)
    );
}

#[test]
fn unknown_update_from_tag_is_an_error() {
    assert_eq!(UpdateFrom::decode(&[0xc2, 0x03, 0xc0]), Err(DecodeError::InvalidUpdateFrom));
}

#[test]
fn wal_info_without_lock_has_from_after_step() {
    let from = UpdateFrom::ChokeQC(AggregatedChoke { height: 1, round: 3, signature: vec![], voters: vec![] });
    let wal = WalInfo { height: 1, round: 4, step: Step::Brake, lock: None, from: from.clone() };
    assert_eq!(
        wal.encode(),
        vec![0xcc, 0x80, 0x01, 0x04, 0xc1, 0x03, 0xc6, 0x02, 0xc4, 0x01, 0x03, 0x80, 0xc0]
    );
    assert_eq!(WalInfo::decode(&wal.encode()).unwrap(), wal);
    let lock = WalLock {
        lock_round: 0,
        lock_votes: AggregatedVote {
            signature: AggregatedSignature { signature: vec![], address_bitmap: vec![] },
            vote_type: VoteType::Prevote,
            height: 1,
            round: 0,
            block_hash: vec![0x42],
            leader: vec![],
        },
        content: vec![1, 2],
    };
    let locked = WalInfo { lock: Some(lock), ..wal.clone() };
    let bytes = locked.encode();
    assert_eq!(bytes[1], 0x01);
    assert_eq!(WalInfo::decode(&bytes).unwrap(), locked);
    // the lock stands between the step and the update
    let lock_bytes = locked.lock.as_ref().unwrap().encode();
    assert_eq!(&bytes[6..6 + lock_bytes.len()], &lock_bytes[..]);
    assert_eq!(&bytes[6 + lock_bytes.len()..], &from.encode()[..]);
}

#[test]
fn truncated_input_is_an_error() {
    let vote = Vote { height: 1, round: 2, vote_type: VoteType::Prevote, block_hash: vec![0xab; 32] };
    let bytes = vote.encode();
    for len in 0..bytes.len() {
        assert_eq!(Vote::decode(&bytes[..len]), Err(DecodeError::InputTooShort));
    }
    let wal = gen_wal_info(Some(vec![1, 2, 3]));
    let bytes = wal.encode();
    for len in 0..bytes.len() {
        assert!(WalInfo::decode(&bytes[..len]).is_err());
    }
}

#[test]
fn malformed_input_is_an_error_and_no_panic() {
    assert_eq!(Vote::decode(&[]), Err(DecodeError::InputTooShort));
    assert_eq!(Vote::decode(&[0x80]), Err(DecodeError::UnexpectedString));
    assert_eq!(Vote::decode(&[0xc1, 0xc0]), Err(DecodeError::UnexpectedList));
    assert_eq!(Vote::decode(&[0xc2, 0x81, 0x05]), Err(DecodeError::NonCanonicalSingleByte));
    assert_eq!(Vote::decode(&[0xc3, 0x82, 0x00, 0x05]), Err(DecodeError::LeadingZero));
    assert_eq!(
        Vote::decode(&[0xca, 0x89, 1, 2, 3, 4, 5, 6, 7, 8, 9]),
        Err(DecodeError::Overflow)
    );
    assert_eq!(Vote::decode(&[0xf8, 0x05, 1, 2, 3, 4, 5]), Err(DecodeError::NonCanonicalSize));
    assert_eq!(Vote::decode(&[0xf8, 0x00]), Err(DecodeError::LeadingZero));
    assert_eq!(Proposal::decode(&[0xc1, 0x02]), Err(DecodeError::InvalidBool));
    for _ in 0..200 {
        let junk = gen_bytes((random::<u8>() % 64) as usize);
        let _ = SignedProposal::decode(&junk);
        let _ = SignedVote::decode(&junk);
        let _ = SignedChoke::decode(&junk);
        let _ = WalInfo::decode(&junk);
        let _ = Commit::decode(&junk);
    }
}

#[test]
fn decoding_leaves_what_follows() {
    let vote = Vote { height: 1, round: 2, vote_type: VoteType::Prevote, block_hash: vec![1, 2, 3] };
    let mut bytes = vote.encode();
    bytes.extend_from_slice(&[0xde, 0xad]);
    let (decoded, rest) = Vote::decode_from(&bytes).unwrap();
    assert_eq!(decoded, vote);
    assert_eq!(rest, &[0xde, 0xad]);
}

#[test]
fn encoding_is_canonical() {
    let a = Vote { height: 1, round: 2, vote_type: VoteType::Prevote, block_hash: vec![1, 2, 3] };
    let b = Vote { height: 1, round: 2, vote_type: VoteType::Prevote, block_hash: vec![1, 2, 3] };
    let c = Vote { height: 1, round: 2, vote_type: VoteType::Precommit, block_hash: vec![1, 2, 3] };
    let d = Vote { height: 1, round: 2, vote_type: VoteType::Prevote, block_hash: vec![1, 2] };
    assert_eq!(a.encode(), b.encode());
    assert_ne!(a.encode(), c.encode());
    assert_ne!(a.encode(), d.encode());
}

#[test]
fn status_names_what_it_holds() {
    let node = Node { address: vec![0xa1], propose_weight: 1, vote_weight: 0x0102 };
    assert_eq!(node.encode(), vec![0xc6, 0x81, 0xa1, 0x01, 0x82, 0x01, 0x02]);
    assert_eq!(Node::decode(&node.encode()).unwrap(), node);
    let config = DurationConfig::new(1500, 1000, 700, 0);
    assert_eq!(
        config.encode(),
        vec![0xca, 0x82, 0x05, 0xdc, 0x82, 0x03, 0xe8, 0x82, 0x02, 0xbc, 0x80]
    );
    assert_eq!(DurationConfig::decode(&config.encode()).unwrap(), config);
    let bare = Status { height: 7, interval: None, timer_config: None, authority_list: vec![] };
    assert_eq!(bare.encode(), vec![0xc4, 0x80, 0x80, 0x07, 0xc0]);
    let with_interval = Status { interval: Some(3000), ..bare.clone() };
    assert_eq!(with_interval.encode(), vec![0xc7, 0x01, 0x80, 0x07, 0x82, 0x0b, 0xb8, 0xc0]);
    let full = Status {
        height: 7,
        interval: Some(3000),
        timer_config: Some(config),
        authority_list: vec![node.clone(), Node::new(vec![])],
    };
    let mut expected = vec![0xc0 + 6 + 11 + 12, 0x01, 0x01, 0x07, 0x82, 0x0b, 0xb8];
    expected.extend_from_slice(&config.encode());
    expected.extend_from_slice(&[0xcb]);
    expected.extend_from_slice(&node.encode());
    expected.extend_from_slice(&[0xc3, 0x80, 0x01, 0x01]);
    assert_eq!(full.encode(), expected);
    for status in [bare, with_interval, full] {
        assert_eq!(Status::decode(&status.encode()).unwrap(), status);
    }
    // a weight of five digits, the first of them zero: too many digits come first
    assert_eq!(
        Node::decode(&[0xc9, 0x81, 0xa1, 0x01, 0x85, 0x00, 0x00, 0x00, 0x00, 0x01]),
        Err(DecodeError::Overflow)
    );
    assert_eq!(
        Node::decode(&[0xc8, 0x81, 0xa1, 0x01, 0x84, 0x00, 0x00, 0x00, 0x01]),
        Err(DecodeError::LeadingZero)
    );
    let heavy = Node { address: vec![], propose_weight: u32::MAX, vote_weight: 0x80 };
    assert_eq!(heavy.encode(), vec![0xc8, 0x80, 0x84, 0xff, 0xff, 0xff, 0xff, 0x81, 0x80]);
    assert_eq!(Node::decode(&heavy.encode()).unwrap(), heavy);
    // a weight that does not fit 32 bits
    assert_eq!(
        Node::decode(&[0xc9, 0x81, 0xa1, 0x01, 0x85, 0x01, 0x00, 0x00, 0x00, 0x00]),
        Err(DecodeError::Overflow)
    );
}
