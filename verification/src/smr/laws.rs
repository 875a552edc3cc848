//! What holds of every run of the state machine of replication.

use vstd::prelude::*;
use crate::smr::smr_types::{LockView, SMREventView, SMRTriggerView, TriggerSource};
use crate::smr::state_machine::{Machine, Move};

verus! {

/// An event with the height at which the machine stood when it gave the event.
pub struct Emitted {
    pub height: u64,
    pub event: SMREventView,
}

/// The machine after a trigger: a refused trigger leaves it as it is.
pub open spec fn step_to(m: Machine, t: SMRTriggerView) -> Machine {
    match m.next(t) {
        Move::To(end, _) => end,
        Move::Refused(_) => m,
    }
}

/// The events of a trigger, each with the height of the machine after the trigger.
pub open spec fn step_events(m: Machine, t: SMRTriggerView) -> Seq<Emitted> {
    match m.next(t) {
        Move::To(end, events) => Seq::new(
            events.len(),
            |i: int| Emitted { height: end.height, event: events[i] },
        ),
        Move::Refused(_) => Seq::empty(),
    }
}

/// The machine after a run of triggers.
pub open spec fn run_to(m: Machine, ts: Seq<SMRTriggerView>) -> Machine
    decreases ts.len(),
{
    if ts.len() == 0 {
        m
    } else {
        run_to(step_to(m, ts[0]), ts.skip(1))
    }
}

/// The events of a run of triggers, in the order in which the machine gives them.
pub open spec fn run_events(m: Machine, ts: Seq<SMRTriggerView>) -> Seq<Emitted>
    decreases ts.len(),
{
    if ts.len() == 0 {
        Seq::empty()
    } else {
        step_events(m, ts[0]) + run_events(step_to(m, ts[0]), ts.skip(1))
    }
}

/// None of the triggers is a recovery from the write-ahead log.
pub open spec fn no_recovery(ts: Seq<SMRTriggerView>) -> bool {
    forall|i: int| 0 <= i < ts.len() ==> !((#[trigger] ts[i]).trigger_type is WalInfo)
}

/// A trigger keeps the machine in order.
pub proof fn lemma_step_keeps_wf(m: Machine, t: SMRTriggerView)
    requires
        m.wf(),
    ensures
        step_to(m, t).wf(),
{
}

/// Without a recovery the machine never goes back in height. A trigger gives at most one commit
/// event, and it gives one only as it enters the commit step, at the height at which it stood.
/// In the commit step nothing but a new height, a recovery or a stop moves the machine.
pub proof fn lemma_step_commit(m: Machine, t: SMRTriggerView)
    requires
        m.wf(),
        !(t.trigger_type is WalInfo),
    ensures
        step_to(m, t).height >= m.height,
        step_to(m, t).height == m.height && m.step is Commit ==> step_to(m, t).step is Commit,
        forall|i: int|
            0 <= i < step_events(m, t).len()
                && (#[trigger] step_events(m, t)[i]).event is Commit ==> {
                &&& !(m.step is Commit)
                &&& step_to(m, t).step is Commit
                &&& step_events(m, t)[i].height == m.height
                &&& step_events(m, t).len() == 1
            },
{
}

/// In a run without recovery every commit event is given at the height where the run starts or
/// above it, and strictly above it where the run starts in the commit step.
pub proof fn lemma_commits_above(m: Machine, ts: Seq<SMRTriggerView>)
    requires
        m.wf(),
        no_recovery(ts),
    ensures
        forall|i: int|
            0 <= i < run_events(m, ts).len()
                && (#[trigger] run_events(m, ts)[i]).event is Commit ==> {
                &&& run_events(m, ts)[i].height >= m.height
                &&& m.step is Commit ==> run_events(m, ts)[i].height > m.height
            },
    decreases ts.len(),
{
    if ts.len() > 0 {
        let first = step_events(m, ts[0]);
        let mid = step_to(m, ts[0]);
        let rest = run_events(mid, ts.skip(1));
        assert(!(ts[0].trigger_type is WalInfo));
        lemma_step_commit(m, ts[0]);
        lemma_step_keeps_wf(m, ts[0]);
        assert(no_recovery(ts.skip(1))) by {
            assert forall|i: int| 0 <= i < ts.skip(1).len() implies !((#[trigger] ts.skip(1)[i]).trigger_type is WalInfo) by {
                assert(ts.skip(1)[i] == ts[i + 1]);
            }
        }
        lemma_commits_above(mid, ts.skip(1));
        assert forall|i: int|
            0 <= i < run_events(m, ts).len()
                && (#[trigger] run_events(m, ts)[i]).event is Commit implies {
            &&& run_events(m, ts)[i].height >= m.height
            &&& m.step is Commit ==> run_events(m, ts)[i].height > m.height
        } by {
            if i < first.len() {
                assert(run_events(m, ts)[i] == first[i]);
            } else {
                assert(run_events(m, ts)[i] == rest[i - first.len()]);
            }
        }
    }
}

/// A replica commits at most once at a height: of two commit events of a run without recovery
/// the later one is given at a greater height than the earlier one.
pub proof fn lemma_one_commit_per_height(m: Machine, ts: Seq<SMRTriggerView>, i: int, j: int)
    requires
        m.wf(),
        no_recovery(ts),
        0 <= i < j < run_events(m, ts).len(),
        run_events(m, ts)[i].event is Commit,
        run_events(m, ts)[j].event is Commit,
    ensures
        run_events(m, ts)[i].height < run_events(m, ts)[j].height,
    decreases ts.len(),
{
    if ts.len() > 0 {
        let first = step_events(m, ts[0]);
        let mid = step_to(m, ts[0]);
        let rest = run_events(mid, ts.skip(1));
        assert(!(ts[0].trigger_type is WalInfo));
        lemma_step_commit(m, ts[0]);
        lemma_step_keeps_wf(m, ts[0]);
        assert(no_recovery(ts.skip(1))) by {
            assert forall|k: int| 0 <= k < ts.skip(1).len() implies !((#[trigger] ts.skip(1)[k]).trigger_type is WalInfo) by {
                assert(ts.skip(1)[k] == ts[k + 1]);
            }
        }
        if i < first.len() {
            assert(run_events(m, ts)[i] == first[i]);
            assert(j >= first.len());
            assert(run_events(m, ts)[j] == rest[j - first.len()]);
            lemma_commits_above(mid, ts.skip(1));
        } else {
            assert(run_events(m, ts)[i] == rest[i - first.len()]);
            assert(run_events(m, ts)[j] == rest[j - first.len()]);
            lemma_one_commit_per_height(mid, ts.skip(1), i - first.len(), j - first.len());
        }
    }
}

/// The trigger shows the machine a prevote certificate of a later round than the lock's: it is
/// such a certificate, for a block, and the machine has not yet seen it in its round; or it is a
/// proposal for another block than the locked one that carries such a certificate as its lock.
pub open spec fn shows_later_prevote_qc(m: Machine, t: SMRTriggerView, lock: LockView) -> bool {
    &&& t.source == TriggerSource::State
    &&& t.height == m.height
    &&& t.round == m.round
    &&& if t.trigger_type is PrevoteQC {
        t.hash.len() > 0 && m.round > lock.round
    } else {
        t.trigger_type is Proposal && t.lock_round is Some && t.lock_round->Some_0 > lock.round
            && t.hash != lock.hash
    }
}

/// The trigger starts a new height or recovers the machine from the write-ahead log.
pub open spec fn starts_over(t: SMRTriggerView) -> bool {
    t.trigger_type is NewHeight || t.trigger_type is WalInfo
}

/// A locked replica keeps its lock and prevotes nothing but the locked block, unless it is shown
/// a prevote certificate of a later round than the lock's, or starts over.
pub proof fn lemma_lock_holds(m: Machine, t: SMRTriggerView)
    requires
        m.wf(),
        m.lock is Some,
        !shows_later_prevote_qc(m, t, m.lock->Some_0),
        !starts_over(t),
    ensures
        step_to(m, t).lock == m.lock,
        forall|i: int|
            0 <= i < step_events(m, t).len() ==> (match (#[trigger] step_events(m, t)[i]).event {
                SMREventView::PrevoteVote { block_hash, .. } => block_hash == m.lock->Some_0.hash,
                _ => true,
            }),
{
}

/// None of the triggers shows the machine, as it stands when the trigger comes, a prevote
/// certificate of a later round than the lock's, and none starts over.
pub open spec fn nothing_later(m: Machine, ts: Seq<SMRTriggerView>, lock: LockView) -> bool
    decreases ts.len(),
{
    if ts.len() == 0 {
        true
    } else {
        &&& !shows_later_prevote_qc(m, ts[0], lock)
        &&& !starts_over(ts[0])
        &&& nothing_later(step_to(m, ts[0]), ts.skip(1), lock)
    }
}

/// Lock monotonicity: once a replica holds a lock, it holds it, and every prevote that it casts
/// is for the locked block, until it is shown a prevote certificate of a later round than the
/// lock's, for another block where a proposal carries the certificate, or starts over.
pub proof fn lemma_lock_monotone(m: Machine, ts: Seq<SMRTriggerView>)
    requires
        m.wf(),
        m.lock is Some,
        nothing_later(m, ts, m.lock->Some_0),
    ensures
        run_to(m, ts).lock == m.lock,
        forall|i: int|
            0 <= i < run_events(m, ts).len() ==> (match (#[trigger] run_events(m, ts)[i]).event {
                SMREventView::PrevoteVote { block_hash, .. } => block_hash == m.lock->Some_0.hash,
                _ => true,
            }),
    decreases ts.len(),
{
    if ts.len() > 0 {
        let first = step_events(m, ts[0]);
        let mid = step_to(m, ts[0]);
        let rest = run_events(mid, ts.skip(1));
        lemma_lock_holds(m, ts[0]);
        lemma_step_keeps_wf(m, ts[0]);
        lemma_lock_monotone(mid, ts.skip(1));
        assert forall|i: int| 0 <= i < run_events(m,
            ts).len() implies (match (#[trigger] run_events(
            m,
            ts,
        )[i]).event {
            SMREventView::PrevoteVote { block_hash, .. } => block_hash == m.lock->Some_0.hash,
            _ => true,
        }) by {
            if i < first.len() {
                assert(run_events(m, ts)[i] == first[i]);
            } else {
                assert(run_events(m, ts)[i] == rest[i - first.len()]);
            }
        }
    }
}

} // verus!
