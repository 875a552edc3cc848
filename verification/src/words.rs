//! What the values say of themselves in words, for logs and reports.

use vstd::prelude::*;
use vstd::string::*;
use crate::DurationConfig;
use crate::error::ConsensusError;
use crate::smr::smr_types::{SMREvent, SMRStatus, SMRTrigger, Step, TriggerSource, TriggerType};
use crate::types::{
    AggregatedVote, Commit, OverlordMsg, Proposal, Status, ViewChangeReason, Vote, VoteType,
};
use crate::utils::text::{
    debug_text, debug_words, decimal, decimal_text, join3, join4, option_text, option_words,
    quoted_hex_text, quoted_hex_words,
};

verus! {

impl VoteType {
    /// The name of the type.
    pub open spec fn words(&self) -> Seq<char> {
        match self {
            VoteType::Prevote => "Prevote"@,
            VoteType::Precommit => "Precommit"@,
        }
    }

    /// Writes the words.
    pub fn describe(&self) -> (r: String)
        ensures
            r@ == self.words(),
    {
        match self {
            VoteType::Prevote => String::from_str("Prevote"),
            VoteType::Precommit => String::from_str("Precommit"),
        }
    }
}

impl Step {
    /// The step in words.
    pub open spec fn words(&self) -> Seq<char> {
        match self {
            Step::Propose => "Prepose step"@,
            Step::Prevote => "Prevote step"@,
            Step::Precommit => "Precommit step"@,
            Step::Brake => "Brake step"@,
            Step::Commit => "Commit step"@,
        }
    }

    /// Writes the words.
    pub fn describe(&self) -> (r: String)
        ensures
            r@ == self.words(),
    {
        match self {
            Step::Propose => String::from_str("Prepose step"),
            Step::Prevote => String::from_str("Prevote step"),
            Step::Precommit => String::from_str("Precommit step"),
            Step::Brake => String::from_str("Brake step"),
            Step::Commit => String::from_str("Commit step"),
        }
    }
}

impl TriggerType {
    /// The kind of trigger in words.
    pub open spec fn words(&self) -> Seq<char> {
        match self {
            TriggerType::Proposal => "Proposal"@,
            TriggerType::PrevoteQC => "PrevoteQC"@,
            TriggerType::PrecommitQC => "PrecommitQC"@,
            TriggerType::NewHeight(_) => "New height"@,
            TriggerType::WalInfo => "Wal Infomation"@,
            TriggerType::BrakeTimeout => "Brake Timeout"@,
            TriggerType::ContinueRound => "Continue Round"@,
            TriggerType::Stop => "Stop Process"@,
        }
    }

    /// Writes the words.
    pub fn describe(&self) -> (r: String)
        ensures
            r@ == self.words(),
    {
        match self {
            TriggerType::Proposal => String::from_str("Proposal"),
            TriggerType::PrevoteQC => String::from_str("PrevoteQC"),
            TriggerType::PrecommitQC => String::from_str("PrecommitQC"),
            TriggerType::NewHeight(_) => String::from_str("New height"),
            TriggerType::WalInfo => String::from_str("Wal Infomation"),
            TriggerType::BrakeTimeout => String::from_str("Brake Timeout"),
            TriggerType::ContinueRound => String::from_str("Continue Round"),
            TriggerType::Stop => String::from_str("Stop Process"),
        }
    }
}

impl TriggerSource {
    /// Where a trigger comes from, in a word.
    pub open spec fn words(&self) -> Seq<char> {
        match self {
            TriggerSource::State => "State"@,
            TriggerSource::Timer => "Timer"@,
        }
    }

    /// Writes the words.
    pub fn describe(&self) -> (r: String)
        ensures
            r@ == self.words(),
    {
        match self {
            TriggerSource::State => String::from_str("State"),
            TriggerSource::Timer => String::from_str("Timer"),
        }
    }
}

impl OverlordMsg {
    /// The kind of message in words.
    pub open spec fn words(&self) -> Seq<char> {
        match self {
            OverlordMsg::SignedProposal(_) => "Signed Proposal"@,
            OverlordMsg::SignedVote(_) => "Signed Vote"@,
            OverlordMsg::AggregatedVote(_) => "Aggregated Vote"@,
            OverlordMsg::RichStatus(_) => "Rich Status"@,
            OverlordMsg::SignedChoke(_) => "Choke Message"@,
            OverlordMsg::Stop => "Stop Overlord"@,
        }
    }

    /// Writes the words.
    pub fn describe(&self) -> (r: String)
        ensures
            r@ == self.words(),
    {
        match self {
            OverlordMsg::SignedProposal(_) => String::from_str("Signed Proposal"),
            OverlordMsg::SignedVote(_) => String::from_str("Signed Vote"),
            OverlordMsg::AggregatedVote(_) => String::from_str("Aggregated Vote"),
            OverlordMsg::RichStatus(_) => String::from_str("Rich Status"),
            OverlordMsg::SignedChoke(_) => String::from_str("Choke Message"),
            OverlordMsg::Stop => String::from_str("Stop Overlord"),
        }
    }
}

impl ViewChangeReason {
    /// Why a round was given up, in words.
    pub open spec fn words(&self) -> Seq<char> {
        match self {
            ViewChangeReason::NoProposalFromNetwork => "Do not receive proposal from network"@,
            ViewChangeReason::NoPrevoteQCFromNetwork => "Do not receive Prevote QC from network"@,
            ViewChangeReason::NoPrecommitQCFromNetwork =>
                "Do not receive precommit QC from network"@,
            ViewChangeReason::CheckBlockNotPass => "Check the block not pass"@,
            ViewChangeReason::UpdateFromHigherPrevoteQC(from, to) =>
                "Update from a higher round prevote QC from "@
                + decimal(*from as nat)
                + " to "@
                + decimal(*to as nat),
            ViewChangeReason::UpdateFromHigherPrecommitQC(from, to) =>
                "Update from a higher round precommit QC from "@
                + decimal(*from as nat)
                + " to "@
                + decimal(*to as nat),
            ViewChangeReason::UpdateFromHigherChokeQC(from, to) =>
                "Update from a higher round choke QC from "@
                + decimal(*from as nat)
                + " to "@
                + decimal(*to as nat),
            ViewChangeReason::LeaderReceivedVoteBelowThreshold(vote_type) => vote_type.words()
                + " votes count is below threshold"@,
            ViewChangeReason::Others => "other reasons"@,
        }
    }

    /// Writes the words.
    pub fn describe(&self) -> (r: String)
        ensures
            r@ == self.words(),
    {
        match self {
            ViewChangeReason::NoProposalFromNetwork => {
                let mut r = String::from_str("Do not receive proposal from network");
                r
            },
            ViewChangeReason::NoPrevoteQCFromNetwork => {
                let mut r = String::from_str("Do not receive Prevote QC from network");
                r
            },
            ViewChangeReason::NoPrecommitQCFromNetwork => {
                let mut r = String::from_str("Do not receive precommit QC from network");
                r
            },
            ViewChangeReason::CheckBlockNotPass => {
                let mut r = String::from_str("Check the block not pass");
                r
            },
            ViewChangeReason::UpdateFromHigherPrevoteQC(from, to) => {
                let mut r = String::from_str("Update from a higher round prevote QC from ");
                r.append(decimal_text(*from).as_str());
                r.append(" to ");
                r.append(decimal_text(*to).as_str());
                r
            },
            ViewChangeReason::UpdateFromHigherPrecommitQC(from, to) => {
                let mut r = String::from_str("Update from a higher round precommit QC from ");
                r.append(decimal_text(*from).as_str());
                r.append(" to ");
                r.append(decimal_text(*to).as_str());
                r
            },
            ViewChangeReason::UpdateFromHigherChokeQC(from, to) => {
                let mut r = String::from_str("Update from a higher round choke QC from ");
                r.append(decimal_text(*from).as_str());
                r.append(" to ");
                r.append(decimal_text(*to).as_str());
                r
            },
            ViewChangeReason::LeaderReceivedVoteBelowThreshold(vote_type) => {
                let mut r = String::from_str(vote_type.describe().as_str());
                r.append(" votes count is below threshold");
                r
            },
            ViewChangeReason::Others => {
                let mut r = String::from_str("other reasons");
                r
            },
        }
    }
}

impl ConsensusError {
    /// The error in words. The text of a channel error is set in quotes as it stands.
    pub open spec fn words(&self) -> Seq<char> {
        match self {
            ConsensusError::InvalidAddress => "Invalid address"@,
            ConsensusError::ChannelErr(text) => "Channel error \""@ + text@ + "\""@,
            ConsensusError::TriggerSMRErr(text) => "Trigger "@ + text@ + " SMR error"@,
            ConsensusError::MonitorEventErr(text) => "Monitor "@ + text@ + " event error"@,
            ConsensusError::ThrowEventErr(text) => "Throw "@ + text@ + " event error"@,
            ConsensusError::ProposalErr(text) => "Proposal error "@ + text@,
            ConsensusError::PrevoteErr(text) => "Prevote error "@ + text@,
            ConsensusError::PrecommitErr(text) => "Precommit error "@ + text@,
            ConsensusError::BrakeErr(text) => "Brake error "@ + text@,
            ConsensusError::RoundDiff { local, vote } => "Self round is "@
                + decimal(*local as nat)
                + ", vote round is "@
                + decimal(*vote as nat),
            ConsensusError::SelfCheckErr(text) => "Self check not pass "@ + text@,
            ConsensusError::CorrectnessErr(text) => "Correctness error "@ + text@,
            ConsensusError::TimerErr(text) => "Timer error "@ + text@,
            ConsensusError::StateErr(text) => "State error "@ + text@,
            ConsensusError::MultiProposal(height, round) => "Multiple proposal in height "@
                + decimal(*height as nat)
                + ", round "@
                + decimal(*round as nat),
            ConsensusError::StorageErr(text) => "Storage error "@ + text@,
            ConsensusError::SaveWalErr { height, round, step } => "Save Wal error "@
                + decimal(*height as nat)
                + ", "@
                + decimal(*round as nat)
                + ", "@
                + step@
                + " step"@,
            ConsensusError::LoadWalErr(text) => "Load Wal error "@ + text@,
            ConsensusError::CryptoErr(text) => "Crypto error "@ + text@,
            ConsensusError::AggregatedSignatureErr(text) => "Aggregated signature error "@ + text@,
            ConsensusError::Other(text) => "Other error "@ + text@,
        }
    }

    /// Writes the words.
    pub fn describe(&self) -> (r: String)
        ensures
            r@ == self.words(),
    {
        match self {
            ConsensusError::InvalidAddress => {
                let mut r = String::from_str("Invalid address");
                r
            },
            ConsensusError::ChannelErr(text) => {
                let mut r = String::from_str("Channel error \"");
                r.append(text.as_str());
                r.append("\"");
                r
            },
            ConsensusError::TriggerSMRErr(text) => {
                let mut r = String::from_str("Trigger ");
                r.append(text.as_str());
                r.append(" SMR error");
                r
            },
            ConsensusError::MonitorEventErr(text) => {
                let mut r = String::from_str("Monitor ");
                r.append(text.as_str());
                r.append(" event error");
                r
            },
            ConsensusError::ThrowEventErr(text) => {
                let mut r = String::from_str("Throw ");
                r.append(text.as_str());
                r.append(" event error");
                r
            },
            ConsensusError::ProposalErr(text) => {
                let mut r = String::from_str("Proposal error ");
                r.append(text.as_str());
                r
            },
            ConsensusError::PrevoteErr(text) => {
                let mut r = String::from_str("Prevote error ");
                r.append(text.as_str());
                r
            },
            ConsensusError::PrecommitErr(text) => {
                let mut r = String::from_str("Precommit error ");
                r.append(text.as_str());
                r
            },
            ConsensusError::BrakeErr(text) => {
                let mut r = String::from_str("Brake error ");
                r.append(text.as_str());
                r
            },
            ConsensusError::RoundDiff { local, vote } => {
                let mut r = String::from_str("Self round is ");
                r.append(decimal_text(*local).as_str());
                r.append(", vote round is ");
                r.append(decimal_text(*vote).as_str());
                r
            },
            ConsensusError::SelfCheckErr(text) => {
                let mut r = String::from_str("Self check not pass ");
                r.append(text.as_str());
                r
            },
            ConsensusError::CorrectnessErr(text) => {
                let mut r = String::from_str("Correctness error ");
                r.append(text.as_str());
                r
            },
            ConsensusError::TimerErr(text) => {
                let mut r = String::from_str("Timer error ");
                r.append(text.as_str());
                r
            },
            ConsensusError::StateErr(text) => {
                let mut r = String::from_str("State error ");
                r.append(text.as_str());
                r
            },
            ConsensusError::MultiProposal(height, round) => {
                let mut r = String::from_str("Multiple proposal in height ");
                r.append(decimal_text(*height).as_str());
                r.append(", round ");
                r.append(decimal_text(*round).as_str());
                r
            },
            ConsensusError::StorageErr(text) => {
                let mut r = String::from_str("Storage error ");
                r.append(text.as_str());
                r
            },
            ConsensusError::SaveWalErr { height, round, step } => {
                let mut r = String::from_str("Save Wal error ");
                r.append(decimal_text(*height).as_str());
                r.append(", ");
                r.append(decimal_text(*round).as_str());
                r.append(", ");
                r.append(step.as_str());
                r.append(" step");
                r
            },
            ConsensusError::LoadWalErr(text) => {
                let mut r = String::from_str("Load Wal error ");
                r.append(text.as_str());
                r
            },
            ConsensusError::CryptoErr(text) => {
                let mut r = String::from_str("Crypto error ");
                r.append(text.as_str());
                r
            },
            ConsensusError::AggregatedSignatureErr(text) => {
                let mut r = String::from_str("Aggregated signature error ");
                r.append(text.as_str());
                r
            },
            ConsensusError::Other(text) => {
                let mut r = String::from_str("Other error ");
                r.append(text.as_str());
                r
            },
        }
    }
}

impl Proposal {
    /// The proposal in words: its height and round.
    pub open spec fn words(&self) -> Seq<char> {
        "Proposal height "@
            + decimal(self.height as nat)
            + ", round "@
            + decimal(self.round as nat)
    }

    /// Writes the words.
    pub fn describe(&self) -> (r: String)
        ensures
            r@ == self.words(),
    {
        let mut r = String::from_str("Proposal height ");
        r.append(decimal_text(self.height).as_str());
        r.append(", round ");
        r.append(decimal_text(self.round).as_str());
        r
    }
}

impl Vote {
    /// The vote in words: its type, height and round.
    pub open spec fn words(&self) -> Seq<char> {
        self.vote_type.words()
            + " vote height "@
            + decimal(self.height as nat)
            + ", round "@
            + decimal(self.round as nat)
    }

    /// Writes the words.
    pub fn describe(&self) -> (r: String)
        ensures
            r@ == self.words(),
    {
        let mut r = String::from_str(self.vote_type.describe().as_str());
        r.append(" vote height ");
        r.append(decimal_text(self.height).as_str());
        r.append(", round ");
        r.append(decimal_text(self.round).as_str());
        r
    }
}

impl AggregatedVote {
    /// The certificate in words: its type, height and round.
    pub open spec fn words(&self) -> Seq<char> {
        self.vote_type.words()
            + " aggregated vote height "@
            + decimal(self.height as nat)
            + ", round "@
            + decimal(self.round as nat)
    }

    /// Writes the words.
    pub fn describe(&self) -> (r: String)
        ensures
            r@ == self.words(),
    {
        let mut r = String::from_str(self.vote_type.describe().as_str());
        r.append(" aggregated vote height ");
        r.append(decimal_text(self.height).as_str());
        r.append(", round ");
        r.append(decimal_text(self.round).as_str());
        r
    }
}

impl Commit {
    /// The commit in words: its height.
    pub open spec fn words(&self) -> Seq<char> {
        "Commit height "@ + decimal(self.height as nat)
    }

    /// Writes the words.
    pub fn describe(&self) -> (r: String)
        ensures
            r@ == self.words(),
    {
        let mut r = String::from_str("Commit height ");
        r.append(decimal_text(self.height).as_str());
        r
    }
}

impl Status {
    /// The status in words: its height.
    pub open spec fn words(&self) -> Seq<char> {
        "Rich status height "@ + decimal(self.height as nat)
    }

    /// Writes the words.
    pub fn describe(&self) -> (r: String)
        ensures
            r@ == self.words(),
    {
        let mut r = String::from_str("Rich status height ");
        r.append(decimal_text(self.height).as_str());
        r
    }
}

/// A call to enter a round in words, with the words for the locked block where there is one.
pub open spec fn new_round_words(
    round: u64,
    lock_round: Option<u64>,
    lock_proposal: Option<Seq<char>>,
) -> Seq<char> {
    "New round "@ + decimal(round as nat) + " event, lock round "@ + option_words(lock_round)
        + ", lock proposal "@ + match lock_proposal {
        Some(block) => "Some("@ + block + ")"@,
        None => "None"@,
    }
}

/// Writes a call to enter a round, with the words for the locked block where there is one.
pub fn new_round_text(round: u64, lock_round: Option<u64>, lock_proposal: Option<String>) -> (r:
    String)
    ensures
        r@ == new_round_words(
            round,
            lock_round,
            match lock_proposal {
                Some(block) => Some(block@),
                None => None,
            },
        ),
{
    let mut r = join4(
        "New round ",
        decimal_text(round).as_str(),
        " event, lock round ",
        option_text(lock_round).as_str(),
    );
    r.append(", lock proposal ");
    let block = match lock_proposal {
        Some(block) => join3("Some(", block.as_str(), ")"),
        None => String::from_str("None"),
    };
    let ghost before = r@;
    r.append(block.as_str());
    assert(r@ =~= before + block@);
    r
}

impl SMREvent {
    /// The event in words. A block hash is written in hexadecimal digits and in quotes; the
    /// locked block of a new round is written as a byte string is for a reader who debugs.
    pub open spec fn words(&self) -> Seq<char> {
        match self {
            SMREvent::NewRoundInfo { round, lock_round, lock_proposal, .. } => new_round_words(
                *round,
                *lock_round,
                match lock_proposal {
                    Some(hash) => Some(debug_words(hash@)),
                    None => None,
                },
            ),
            SMREvent::PrevoteVote { height, round, block_hash, lock_round } =>
                "Prevote event height "@
                + decimal(*height as nat)
                + ", round "@
                + decimal(*round as nat)
                + ", block hash "@
                + quoted_hex_words(block_hash@)
                + ", lock round "@
                + option_words(*lock_round),
            SMREvent::PrecommitVote { height, round, block_hash, lock_round } =>
                "Precommit event height "@
                + decimal(*height as nat)
                + ", round "@
                + decimal(*round as nat)
                + ", block hash "@
                + quoted_hex_words(block_hash@)
                + ", lock round "@
                + option_words(*lock_round),
            SMREvent::Commit(hash) => "Commit event hash "@ + quoted_hex_words(hash@),
            SMREvent::Brake { height, round, lock_round } => "Brake event height "@
                + decimal(*height as nat)
                + ", round "@
                + decimal(*round as nat)
                + ", lock round "@
                + option_words(*lock_round),
            SMREvent::Stop => "Stop event"@,
        }
    }

    /// Writes the words.
    pub fn describe(&self) -> (r: String)
        ensures
            r@ == self.words(),
    {
        match self {
            SMREvent::NewRoundInfo { round, lock_round, lock_proposal, .. } => {
                let block = match lock_proposal {
                    Some(hash) => Some(debug_text(hash)),
                    None => None,
                };
                new_round_text(*round, *lock_round, block)
            },
            SMREvent::PrevoteVote { height, round, block_hash, lock_round } => {
                let mut r = String::from_str("Prevote event height ");
                r.append(decimal_text(*height).as_str());
                r.append(", round ");
                r.append(decimal_text(*round).as_str());
                r.append(", block hash ");
                r.append(quoted_hex_text(block_hash).as_str());
                r.append(", lock round ");
                r.append(option_text(*lock_round).as_str());
                r
            },
            SMREvent::PrecommitVote { height, round, block_hash, lock_round } => {
                let mut r = String::from_str("Precommit event height ");
                r.append(decimal_text(*height).as_str());
                r.append(", round ");
                r.append(decimal_text(*round).as_str());
                r.append(", block hash ");
                r.append(quoted_hex_text(block_hash).as_str());
                r.append(", lock round ");
                r.append(option_text(*lock_round).as_str());
                r
            },
            SMREvent::Commit(hash) => {
                let mut r = String::from_str("Commit event hash ");
                r.append(quoted_hex_text(hash).as_str());
                r
            },
            SMREvent::Brake { height, round, lock_round } => {
                let mut r = String::from_str("Brake event height ");
                r.append(decimal_text(*height).as_str());
                r.append(", round ");
                r.append(decimal_text(*round).as_str());
                r.append(", lock round ");
                r.append(option_text(*lock_round).as_str());
                r
            },
            SMREvent::Stop => {
                let mut r = String::from_str("Stop event");
                r
            },
        }
    }
}

/// The ratios as the language writes a value out for a reader who debugs: the type's name and
/// each field by its name.
pub open spec fn config_form(c: DurationConfig) -> Seq<char> {
    "DurationConfig { propose_ratio: "@ + decimal(c.propose_ratio as nat) + ", prevote_ratio: "@
        + decimal(c.prevote_ratio as nat) + ", precommit_ratio: "@ + decimal(
        c.precommit_ratio as nat,
    ) + ", brake_ratio: "@ + decimal(c.brake_ratio as nat) + " }"@
}

/// Writes the ratios out.
pub fn config_text(c: &DurationConfig) -> (r: String)
    ensures
        r@ == config_form(*c),
{
    let mut r = join4(
        "DurationConfig { propose_ratio: ",
        decimal_text(c.propose_ratio).as_str(),
        ", prevote_ratio: ",
        decimal_text(c.prevote_ratio).as_str(),
    );
    r.append(", precommit_ratio: ");
    r.append(decimal_text(c.precommit_ratio).as_str());
    r.append(", brake_ratio: ");
    r.append(decimal_text(c.brake_ratio).as_str());
    r.append(" }");
    r
}

/// The status of a new height, written out in the same way.
pub open spec fn status_form(s: SMRStatus) -> Seq<char> {
    "SMRStatus { height: "@ + decimal(s.height as nat) + ", new_interval: "@ + option_words(
        s.new_interval,
    ) + ", new_config: "@ + match s.new_config {
        Some(c) => "Some("@ + config_form(c) + ")"@,
        None => "None"@,
    } + " }"@
}

/// Writes the status of a new height out.
pub fn status_text(s: &SMRStatus) -> (r: String)
    ensures
        r@ == status_form(*s),
{
    let mut r = join4(
        "SMRStatus { height: ",
        decimal_text(s.height).as_str(),
        ", new_interval: ",
        option_text(s.new_interval).as_str(),
    );
    r.append(", new_config: ");
    let config = match &s.new_config {
        Some(c) => join3("Some(", config_text(c).as_str(), ")"),
        None => String::from_str("None"),
    };
    let ghost before = r@;
    r.append(config.as_str());
    assert(r@ =~= before + config@);
    r.append(" }");
    r
}

impl TriggerType {
    /// The kind of trigger by the name of its variant, a new height with its status written
    /// out.
    pub open spec fn variant_form(&self) -> Seq<char> {
        match self {
            TriggerType::Proposal => "Proposal"@,
            TriggerType::PrevoteQC => "PrevoteQC"@,
            TriggerType::PrecommitQC => "PrecommitQC"@,
            TriggerType::NewHeight(s) => "NewHeight("@ + status_form(*s) + ")"@,
            TriggerType::WalInfo => "WalInfo"@,
            TriggerType::BrakeTimeout => "BrakeTimeout"@,
            TriggerType::ContinueRound => "ContinueRound"@,
            TriggerType::Stop => "Stop"@,
        }
    }

    /// Writes the kind of trigger by the name of its variant.
    pub fn variant_text(&self) -> (r: String)
        ensures
            r@ == self.variant_form(),
    {
        match self {
            TriggerType::Proposal => String::from_str("Proposal"),
            TriggerType::PrevoteQC => String::from_str("PrevoteQC"),
            TriggerType::PrecommitQC => String::from_str("PrecommitQC"),
            TriggerType::NewHeight(s) => join3("NewHeight(", status_text(s).as_str(), ")"),
            TriggerType::WalInfo => String::from_str("WalInfo"),
            TriggerType::BrakeTimeout => String::from_str("BrakeTimeout"),
            TriggerType::ContinueRound => String::from_str("ContinueRound"),
            TriggerType::Stop => String::from_str("Stop"),
        }
    }
}

impl SMRTrigger {
    /// The trigger in words: its kind, by the name of the variant, where it comes from, and its
    /// height.
    pub open spec fn words(&self) -> Seq<char> {
        self.trigger_type.variant_form() + " trigger from "@ + self.source.words() + ", height "@
            + decimal(self.height as nat)
    }

    /// Writes the words.
    pub fn describe(&self) -> (r: String)
        ensures
            r@ == self.words(),
    {
        let mut r = join4(
            self.trigger_type.variant_text().as_str(),
            " trigger from ",
            self.source.describe().as_str(),
            ", height ",
        );
        r.append(decimal_text(self.height).as_str());
        r
    }
}

} // verus!
