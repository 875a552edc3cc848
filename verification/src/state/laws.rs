//! What holds of everything that the state does: a proposal is taken only from the proposer of
//! its height and round, and a step is recorded in the write-ahead log before the replica sends
//! anything that tells of it, starts on a proposal, casts its vote, or enters the round or the
//! height.

use vstd::prelude::*;
use crate::INIT_ROUND;
use crate::smr::smr_types::{FromWhere, SMREvent, Step};
use crate::state::process::{views, Action, OutcomeView, State};
use crate::types::{SignedChokeView, SignedProposal, SignedVote, SignedVoteView, Status};

verus! {

/// The action sends something to other replicas or to the application.
pub open spec fn sends(a: Action) -> bool {
    a is Broadcast || a is Transmit || a is Commit
}

/// The action starts the making of a proposal.
pub open spec fn proposes(a: Action) -> bool {
    a is GetBlock || a is SignProposal
}

/// The action hands back what waits for a record: a vote to cast, a round or a height to enter.
pub open spec fn follows_record(a: Action) -> bool {
    a is CastVote || a is EnterRound || a is EnterHeight
}

/// The action records the step at the height and round in the write-ahead log.
pub open spec fn records(a: Action, height: u64, round: u64, step: Step) -> bool {
    a matches Action::SaveWal(w) && w.height == height && w.round == round && w.step == step
}

/// An action before the `i`-th records the step at the height and round.
pub open spec fn recorded_before(out: OutcomeView, i: int, height: u64, round: u64, step: Step)
    -> bool {
    exists|j: int| 0 <= j < i && j < out.actions.len() && records(#[trigger] out.actions[j],
        height, round, step)
}

/// Whatever the outcome sends, whatever proposal it starts on and whatever it hands back to
/// follow a record comes after an action that records the step at the height and round.
pub open spec fn recorded_first(out: OutcomeView, height: u64, round: u64, step: Step) -> bool {
    forall|i: int|
        0 <= i < out.actions.len() && (sends(#[trigger] out.actions[i]) || proposes(out.actions[i])
            || follows_record(out.actions[i])) ==> recorded_before(out, i, height, round, step)
}

/// The outcome sends nothing and starts on no proposal.
pub open spec fn quiet(out: OutcomeView) -> bool {
    forall|i: int|
        0 <= i < out.actions.len() ==> !sends(#[trigger] out.actions[i]) && !proposes(
            out.actions[i],
        )
}

/// Proposer agreement: a proposal of which the state keeps anything, or tells the state machine
/// or the application anything, comes from the proposer of its height and round by the authority
/// list.
pub proof fn lemma_accepted_proposal_is_the_proposers(
    before: State,
    sp: SignedProposal,
    after: State,
    out: OutcomeView,
)
    requires
        before.after_signed_proposal(sp, after, out),
        after != before || out.actions.len() > 0,
    ensures
        before.authority.current@.len() > 0,
        before.authority.proposer(sp.proposal.height, sp.proposal.round) == sp.proposal.proposer@,
{
}

/// A vote that is kept for the replica's own height is of a voter of the current authority list:
/// a vote that would weigh nothing is not held where the votes are counted.
pub proof fn lemma_kept_vote_has_weight(
    before: State,
    sv: SignedVote,
    after: State,
    out: OutcomeView,
)
    requires
        before.after_signed_vote(sv, after, out),
        after.votes.votes@ != before.votes.votes@,
        sv.vote.height <= before.height,
    ensures
        sv.vote.height == before.height,
        before.authority.has(sv.voter@),
{
}

/// A call of the state machine to vote changes nothing in the state and sends nothing: it only
/// asks for the signature of the vote.
pub proof fn lemma_vote_event_is_quiet(before: State, event: SMREvent, after: State,
    out: OutcomeView)
    requires
        before.after_event(Some(event), after, out),
        event is PrevoteVote || event is PrecommitVote,
    ensures
        after == before,
        quiet(out),
        forall|i: int| 0 <= i < out.actions.len() ==> !follows_record(#[trigger] out.actions[i]),
{
    assert(out.actions.len() == views(out.actions).len());
    assert forall|i: int| 0 <= i < out.actions.len() implies out.actions[i] is SignVote by {
        assert(out.actions[i]@ == views(out.actions)[i]);
    }
}

/// The signature of a vote of the replica's own sends nothing, and the state is as it was (the
/// function takes it by shared reference). The vote is handed back to be cast behind the record of
/// the step of its type: the leader keeps its vote, and every other replica sends it, only once
/// the record is written.
pub proof fn lemma_vote_recorded_first(
    before: State,
    sv: SignedVoteView,
    lock_round: Option<u64>,
    out: OutcomeView,
)
    requires
        before.after_vote_signed(sv, lock_round, out),
    ensures
        quiet(out),
        recorded_first(out, before.height, before.round, sv.vote.vote_type.step()),
        out.error is None ==> out.actions.len() == 2 && out.actions[1] is CastVote,
{
    assert(out.actions.len() == 0 || out.actions.len() == views(out.actions).len());
    if out.actions.len() > 0 {
        assert(out.actions[0]@ == views(out.actions)[0]);
        assert(out.actions[1]@ == views(out.actions)[1]);
        assert(records(out.actions[0], before.height, before.round, sv.vote.vote_type.step()));
    }
}

/// A choke of the replica's own is sent only after the brake step is recorded. The replica holds
/// its choke from the moment it is signed.
pub proof fn lemma_choke_recorded_first(
    before: State,
    sc: SignedChokeView,
    lock_round: Option<u64>,
    after: State,
    out: OutcomeView,
)
    requires
        before.after_choke_signed(sc, lock_round, after, out),
    ensures
        recorded_first(out, before.height, before.round, Step::Brake),
{
    if out.actions.len() > 0 {
        assert(records(out.actions[0], before.height, before.round, Step::Brake));
        assert(!sends(out.actions[0]) && !proposes(out.actions[0]) && !follows_record(
            out.actions[0],
        ));
    }
}

/// A block goes to the application to be committed only after the commit step is recorded, and
/// the call to commit changes nothing in the state.
pub proof fn lemma_commit_recorded_first(before: State, hash: Seq<u8>, out: OutcomeView)
    requires
        before.after_commit(hash, out),
    ensures
        recorded_first(out, before.height, before.round, Step::Commit),
{
    assert(out.actions.len() == views(out.actions).len());
    if out.actions.len() > 0 {
        assert(out.actions[0]@ == views(out.actions)[0]);
        assert(records(out.actions[0], before.height, before.round, Step::Commit));
        assert(!sends(out.actions[0]) && !proposes(out.actions[0]) && !follows_record(
            out.actions[0],
        ));
    }
}

/// A call to enter a round keeps the round and the certificate that it comes from, and no more:
/// the replica is no leader, holds no new proposal and has started on none. The round is handed
/// back to be entered behind the record of its propose step, and nothing is sent.
pub proof fn lemma_round_recorded_first(
    before: State,
    new_round: u64,
    lock_round: Option<u64>,
    lock_proposal: Option<Seq<u8>>,
    from_where: FromWhere,
    after: State,
    out: OutcomeView,
)
    requires
        before.after_new_round(new_round, lock_round, lock_proposal, from_where, after, out),
    ensures
        after == (State {
            round: new_round,
            is_leader: false,
            update_from_where: after.update_from_where,
            ..before
        }),
        quiet(out),
        recorded_first(out, before.height, new_round, Step::Propose),
{
    let k: int = if new_round != INIT_ROUND {
        1
    } else {
        0
    };
    let rest = out.skip(k);
    if out.actions.len() > k {
        assert(rest.actions.len() == views(rest.actions).len());
        assert(rest.actions[0]@ == views(rest.actions)[0]);
        assert(rest.actions[1]@ == views(rest.actions)[1]);
        assert(out.actions[k] == rest.actions[0]);
        assert(out.actions[k + 1] == rest.actions[1]);
        assert(records(out.actions[k], before.height, new_round, Step::Propose));
        assert forall|i: int|
            0 <= i < out.actions.len() && (sends(#[trigger] out.actions[i]) || proposes(
                out.actions[i],
            ) || follows_record(out.actions[i])) implies recorded_before(
            out,
            i,
            before.height,
            new_round,
            Step::Propose,
        ) by {
            assert(i > k);
        }
    }
}

/// A rich status of a later height makes the replica go to the height and take over the
/// authority list, and no more: nothing is dropped from the collectors and nothing is sent. The
/// height is handed back to be entered behind the record of its first propose step.
pub proof fn lemma_height_recorded_first(before: State, status: Status, after: State,
    out: OutcomeView)
    requires
        before.after_new_height(status, after, out),
    ensures
        after.proposals == before.proposals,
        after.votes == before.votes,
        after.chokes == before.chokes,
        after.hash_with_block == before.hash_with_block,
        quiet(out),
        recorded_first(out, status.height, INIT_ROUND, Step::Propose),
{
    assert(out.actions.len() == views(out.actions).len());
    if out.actions.len() > 0 {
        assert(out.actions[0]@ == views(out.actions)[0]);
        assert(out.actions[1]@ == views(out.actions)[1]);
        assert(records(out.actions[0], status.height, INIT_ROUND, Step::Propose));
    }
}

} // verus!
