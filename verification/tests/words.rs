use bytes::Bytes;
use overlord::error::ConsensusError;
use overlord::smr::smr_types::{
    FromWhere, SMREvent, SMRStatus, SMRTrigger, Step, TriggerSource, TriggerType,
};
use overlord::types::{
    AggregatedSignature, AggregatedVote, Commit, OverlordMsg, Proof, Proposal, Status,
    ViewChangeReason, Vote, VoteType,
};
use overlord::utils::text::{decimal_text, join2, join3, join4, option_text, quoted_hex_text};
use overlord::words::{config_text, new_round_text, status_text};
use overlord::DurationConfig;

#[test]
fn numbers_are_written_in_decimal_digits() {
    assert_eq!(decimal_text(0), "0");
    assert_eq!(decimal_text(7), "7");
    assert_eq!(decimal_text(10), "10");
    assert_eq!(decimal_text(1905), "1905");
    assert_eq!(decimal_text(u64::MAX), "18446744073709551615");
    assert_eq!(option_text(None), "None");
    assert_eq!(option_text(Some(0)), "Some(0)");
    assert_eq!(option_text(Some(42)), "Some(42)");
}

#[test]
fn texts_are_put_together_in_order() {
    assert_eq!(join2("a", "b"), "ab");
    assert_eq!(join3("a", "", "c"), "ac");
    assert_eq!(join4("1", "2", "3", "4"), "1234");
}

#[test]
fn byte_strings_are_written_in_lower_case_hex() {
    assert_eq!(quoted_hex_text(&vec![]), "\"\"");
    assert_eq!(quoted_hex_text(&vec![0x00, 0x0f, 0xa0, 0xff]), "\"000fa0ff\"");
    assert_eq!(quoted_hex_text(&vec![0x61]), "\"61\"");
}

#[test]
fn vote_types_steps_and_triggers_in_words() {
    assert_eq!(VoteType::Prevote.describe(), "Prevote");
    assert_eq!(VoteType::Precommit.describe(), "Precommit");
    assert_eq!(Step::Propose.describe(), "Prepose step");
    assert_eq!(Step::Prevote.describe(), "Prevote step");
    assert_eq!(Step::Precommit.describe(), "Precommit step");
    assert_eq!(Step::Brake.describe(), "Brake step");
    assert_eq!(Step::Commit.describe(), "Commit step");
    assert_eq!(TriggerType::Proposal.describe(), "Proposal");
    assert_eq!(TriggerType::PrevoteQC.describe(), "PrevoteQC");
    assert_eq!(TriggerType::PrecommitQC.describe(), "PrecommitQC");
    let status = SMRStatus { height: 3, new_interval: None, new_config: None };
    assert_eq!(TriggerType::NewHeight(status).describe(), "New height");
    assert_eq!(TriggerType::WalInfo.describe(), "Wal Infomation");
    assert_eq!(TriggerType::BrakeTimeout.describe(), "Brake Timeout");
    assert_eq!(TriggerType::ContinueRound.describe(), "Continue Round");
    assert_eq!(TriggerType::Stop.describe(), "Stop Process");
    assert_eq!(TriggerSource::State.describe(), "State");
    assert_eq!(TriggerSource::Timer.describe(), "Timer");
}

#[test]
fn view_change_reasons_in_words() {
    assert_eq!(
        ViewChangeReason::NoProposalFromNetwork.describe(),
        "Do not receive proposal from network"
    );
    assert_eq!(
        ViewChangeReason::NoPrevoteQCFromNetwork.describe(),
        "Do not receive Prevote QC from network"
    );
    assert_eq!(
        ViewChangeReason::NoPrecommitQCFromNetwork.describe(),
        "Do not receive precommit QC from network"
    );
    assert_eq!(ViewChangeReason::CheckBlockNotPass.describe(), "Check the block not pass");
    assert_eq!(
        ViewChangeReason::UpdateFromHigherPrevoteQC(0, 1).describe(),
        "Update from a higher round prevote QC from 0 to 1"
    );
    assert_eq!(
        ViewChangeReason::UpdateFromHigherPrecommitQC(2, 5).describe(),
        "Update from a higher round precommit QC from 2 to 5"
    );
    assert_eq!(
        ViewChangeReason::UpdateFromHigherChokeQC(9, 10).describe(),
        "Update from a higher round choke QC from 9 to 10"
    );
    assert_eq!(
        ViewChangeReason::LeaderReceivedVoteBelowThreshold(VoteType::Prevote).describe(),
        "Prevote votes count is below threshold"
    );
    assert_eq!(
        ViewChangeReason::LeaderReceivedVoteBelowThreshold(VoteType::Precommit).describe(),
        "Precommit votes count is below threshold"
    );
    assert_eq!(ViewChangeReason::Others.describe(), "other reasons");
}

#[test]
fn errors_in_words() {
    let text = |s: &str| s.to_string();
    assert_eq!(ConsensusError::InvalidAddress.describe(), "Invalid address");
    assert_eq!(ConsensusError::ChannelErr(text("closed")).describe(), "Channel error \"closed\"");
    assert_eq!(ConsensusError::TriggerSMRErr(text("proposal")).describe(), "Trigger proposal SMR error");
    assert_eq!(ConsensusError::MonitorEventErr(text("brake")).describe(), "Monitor brake event error");
    assert_eq!(ConsensusError::ThrowEventErr(text("commit")).describe(), "Throw commit event error");
    assert_eq!(ConsensusError::ProposalErr(text("no lock")).describe(), "Proposal error no lock");
    assert_eq!(ConsensusError::PrevoteErr(text("a")).describe(), "Prevote error a");
    assert_eq!(ConsensusError::PrecommitErr(text("b")).describe(), "Precommit error b");
    assert_eq!(ConsensusError::BrakeErr(text("c")).describe(), "Brake error c");
    assert_eq!(
        ConsensusError::RoundDiff { local: 3, vote: 7 }.describe(),
        "Self round is 3, vote round is 7"
    );
    assert_eq!(ConsensusError::SelfCheckErr(text("d")).describe(), "Self check not pass d");
    assert_eq!(ConsensusError::CorrectnessErr(text("e")).describe(), "Correctness error e");
    assert_eq!(ConsensusError::TimerErr(text("f")).describe(), "Timer error f");
    assert_eq!(ConsensusError::StateErr(text("g")).describe(), "State error g");
    assert_eq!(
        ConsensusError::MultiProposal(1, 0).describe(),
        "Multiple proposal in height 1, round 0"
    );
    assert_eq!(ConsensusError::StorageErr(text("h")).describe(), "Storage error h");
    assert_eq!(
        ConsensusError::SaveWalErr { height: 11, round: 2, step: text("Propose") }.describe(),
        "Save Wal error 11, 2, Propose step"
    );
    assert_eq!(ConsensusError::LoadWalErr(text("i")).describe(), "Load Wal error i");
    assert_eq!(ConsensusError::CryptoErr(text("j")).describe(), "Crypto error j");
    assert_eq!(
        ConsensusError::AggregatedSignatureErr(text("k")).describe(),
        "Aggregated signature error k"
    );
    assert_eq!(ConsensusError::Other(text("")).describe(), "Other error ");
}

#[test]
fn messages_in_words() {
    let qc = AggregatedVote {
        signature: AggregatedSignature { signature: vec![], address_bitmap: vec![] },
        vote_type: VoteType::Precommit,
        height: 4,
        round: 1,
        block_hash: vec![],
        leader: vec![],
    };
    assert_eq!(qc.describe(), "Precommit aggregated vote height 4, round 1");
    let vote = Vote { height: 12, round: 0, vote_type: VoteType::Prevote, block_hash: vec![1] };
    assert_eq!(vote.describe(), "Prevote vote height 12, round 0");
    let proposal = Proposal {
        height: 3,
        round: 2,
        content: vec![],
        block_hash: vec![],
        lock: None,
        proposer: vec![],
    };
    assert_eq!(proposal.describe(), "Proposal height 3, round 2");
    let commit = Commit {
        height: 100,
        content: vec![],
        proof: Proof { height: 100, round: 0, block_hash: vec![], signature: qc.signature.clone() },
    };
    assert_eq!(commit.describe(), "Commit height 100");
    let status = Status { height: 5, interval: None, timer_config: None, authority_list: vec![] };
    assert_eq!(status.describe(), "Rich status height 5");
    assert_eq!(OverlordMsg::AggregatedVote(qc).describe(), "Aggregated Vote");
    assert_eq!(OverlordMsg::RichStatus(status).describe(), "Rich Status");
    assert_eq!(OverlordMsg::Stop.describe(), "Stop Overlord");
}

#[test]
fn events_in_words() {
    let prevote = SMREvent::PrevoteVote {
        height: 1,
        round: 0,
        block_hash: vec![0xab, 0x01],
        lock_round: Some(3),
    };
    assert_eq!(
        prevote.describe(),
        "Prevote event height 1, round 0, block hash \"ab01\", lock round Some(3)"
    );
    let precommit = SMREvent::PrecommitVote {
        height: 2,
        round: 1,
        block_hash: vec![],
        lock_round: None,
    };
    assert_eq!(
        precommit.describe(),
        "Precommit event height 2, round 1, block hash \"\", lock round None"
    );
    assert_eq!(SMREvent::Commit(vec![0xff, 0x10]).describe(), "Commit event hash \"ff10\"");
    assert_eq!(
        SMREvent::Brake { height: 9, round: 8, lock_round: Some(7) }.describe(),
        "Brake event height 9, round 8, lock round Some(7)"
    );
    assert_eq!(SMREvent::Stop.describe(), "Stop event");
}

#[test]
fn new_round_in_words() {
    let event = |lock_round: Option<u64>, lock_proposal: Option<Vec<u8>>| SMREvent::NewRoundInfo {
        height: 1,
        round: 2,
        lock_round,
        lock_proposal,
        from_where: FromWhere::PrecommitQC(1),
        new_interval: None,
        new_config: None,
    };
    assert_eq!(
        event(None, None).describe(),
        "New round 2 event, lock round None, lock proposal None"
    );
    assert_eq!(
        event(Some(1), Some(vec![0x61, 0x62])).describe(),
        "New round 2 event, lock round Some(1), lock proposal Some(b\"ab\")"
    );
    assert_eq!(
        event(None, Some(vec![0x00, 0x61, 0xff, 0x22, 0x0a, 0x0d, 0x09, 0x5c, 0x7f, 0x20, 0x7e, 0x1f])).describe(),
        "New round 2 event, lock round None, lock proposal Some(b\"\\0a\\xff\\\"\\n\\r\\t\\\\\\x7f ~\\x1f\")"
    );
    let hash = vec![0x00, 0x61, 0xff, 0x22];
    let written = format!("{:?}", Some(Bytes::from(hash.clone())));
    assert_eq!(
        event(Some(0), Some(hash)).describe(),
        format!("New round 2 event, lock round Some(0), lock proposal {}", written)
    );
    assert_eq!(
        new_round_text(3, Some(2), Some("block".to_string())),
        "New round 3 event, lock round Some(2), lock proposal Some(block)"
    );
    assert_eq!(new_round_text(0, None, None), "New round 0 event, lock round None, lock proposal None");
}

#[test]
fn triggers_in_words() {
    let trigger = |trigger_type: TriggerType, source: TriggerSource| SMRTrigger {
        trigger_type,
        source,
        hash: vec![1, 2],
        lock_round: Some(1),
        round: 4,
        height: 21,
        wal_info: None,
    };
    assert_eq!(
        trigger(TriggerType::Proposal, TriggerSource::State).describe(),
        "Proposal trigger from State, height 21"
    );
    assert_eq!(
        trigger(TriggerType::BrakeTimeout, TriggerSource::Timer).describe(),
        "BrakeTimeout trigger from Timer, height 21"
    );
    let plain = SMRStatus { height: 21, new_interval: None, new_config: None };
    assert_eq!(
        trigger(TriggerType::NewHeight(plain), TriggerSource::State).describe(),
        "NewHeight(SMRStatus { height: 21, new_interval: None, new_config: None }) trigger from State, height 21"
    );
    let config = DurationConfig { propose_ratio: 15, prevote_ratio: 10, precommit_ratio: 11, brake_ratio: 7 };
    let full = SMRStatus { height: 3, new_interval: Some(3000), new_config: Some(config) };
    assert_eq!(
        config_text(&config),
        "DurationConfig { propose_ratio: 15, prevote_ratio: 10, precommit_ratio: 11, brake_ratio: 7 }"
    );
    assert_eq!(status_text(&full), format!("{:?}", full));
    for trigger_type in [
        TriggerType::Proposal,
        TriggerType::PrevoteQC,
        TriggerType::PrecommitQC,
        TriggerType::NewHeight(full),
        TriggerType::WalInfo,
        TriggerType::BrakeTimeout,
        TriggerType::ContinueRound,
        TriggerType::Stop,
    ] {
        assert_eq!(trigger_type.variant_text(), format!("{:?}", trigger_type));
        assert_eq!(
            trigger(trigger_type, TriggerSource::Timer).describe(),
            format!("{:?} trigger from {:?}, height {}", trigger_type, TriggerSource::Timer, 21)
        );
    }
}
