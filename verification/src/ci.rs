//! The CI build-leadership barrier: who releases, and when.
//!
//! Among parallel CI jobs only one, the leader, may release, and only after
//! every sibling job reached a terminal status. The caller learns from
//! `barrier_gate` whether the outcome is already settled; a leader then
//! repeatedly reads sibling statuses and asks `poll_step` what to do next.

use vstd::prelude::*;

verus! {

/// Why a leader gave up instead of proceeding.
#[derive(Clone, Copy, Debug, PartialEq, Eq, Structural)]
pub enum BarrierAbort {
    SiblingFailed,
    Timeout,
    EnvironmentUnavailable,
}

/// What the barrier decided for this job.
#[derive(Clone, Copy, Debug, PartialEq, Eq, Structural)]
pub enum BarrierOutcome {
    NotLeader,
    LeaderProceed,
    LeaderAbort(BarrierAbort),
}

/// Terminal or pending state of one sibling job.
#[derive(Clone, Copy, Debug, PartialEq, Eq, Structural)]
pub enum SiblingStatus {
    Succeeded,
    Failed,
    Pending,
}

/// What a polling leader does next.
#[derive(Clone, Copy, Debug, PartialEq, Eq, Structural)]
pub enum PollDecision {
    Proceed,
    Abort(BarrierAbort),
    Wait,
}

/// The barrier outcomes that are settled before any polling: outside CI the
/// caller proceeds as leader unconditionally; inside CI an unreadable
/// environment aborts, and a non-leader stops at once. Only a leader inside
/// CI with a readable environment (`None`) goes on to poll.
pub open spec fn gate_spec(in_ci: bool, env_available: bool, is_leader: bool) -> Option<
    BarrierOutcome,
> {
    if !in_ci {
        Some(BarrierOutcome::LeaderProceed)
    } else if !env_available {
        Some(BarrierOutcome::LeaderAbort(BarrierAbort::EnvironmentUnavailable))
    } else if !is_leader {
        Some(BarrierOutcome::NotLeader)
    } else {
        None
    }
}

/// Decides the barrier outcome that needs no polling, if any.
pub fn barrier_gate(in_ci: bool, env_available: bool, is_leader: bool) -> (r: Option<
    BarrierOutcome,
>)
    ensures
        r == gate_spec(in_ci, env_available, is_leader),
{
    if !in_ci {
        Some(BarrierOutcome::LeaderProceed)
    } else if !env_available {
        Some(BarrierOutcome::LeaderAbort(BarrierAbort::EnvironmentUnavailable))
    } else if !is_leader {
        Some(BarrierOutcome::NotLeader)
    } else {
        None
    }
}

/// A non-leader job stops with `NotLeader` without ever polling.
pub proof fn lemma_non_leader_never_polls(in_ci: bool, env_available: bool)
    requires
        in_ci,
        env_available,
    ensures
        gate_spec(in_ci, env_available, false) == Some(BarrierOutcome::NotLeader),
{
}

/// Some sibling failed.
pub open spec fn any_failed(s: Seq<SiblingStatus>) -> bool {
    exists|i: int| 0 <= i < s.len() && s[i] == SiblingStatus::Failed
}

/// Every sibling succeeded.
pub open spec fn all_succeeded(s: Seq<SiblingStatus>) -> bool {
    forall|i: int| 0 <= i < s.len() ==> s[i] == SiblingStatus::Succeeded
}

/// One round of the leader's poll loop: a failed sibling aborts, all
/// siblings succeeded proceeds, an exhausted wait budget aborts, and
/// anything else keeps waiting.
pub open spec fn poll_spec(s: Seq<SiblingStatus>, waited: u64, max_wait: u64) -> PollDecision {
    if any_failed(s) {
        PollDecision::Abort(BarrierAbort::SiblingFailed)
    } else if all_succeeded(s) {
        PollDecision::Proceed
    } else if waited >= max_wait {
        PollDecision::Abort(BarrierAbort::Timeout)
    } else {
        PollDecision::Wait
    }
}

/// Decides one round of the leader's poll loop from the sibling statuses
/// read so far and the time already waited.
pub fn poll_step(statuses: &Vec<SiblingStatus>, waited: u64, max_wait: u64) -> (d: PollDecision)
    ensures
        d == poll_spec(statuses@, waited, max_wait),
{
    let mut failed = false;
    let mut succeeded = true;
    let mut i: usize = 0;
    while i < statuses.len()
        invariant
            i <= statuses@.len(),
            failed == exists|j: int| 0 <= j < i && statuses@[j] == SiblingStatus::Failed,
            succeeded == forall|j: int| 0 <= j < i ==> statuses@[j] == SiblingStatus::Succeeded,
        decreases statuses@.len() - i,
    {
        match statuses[i] {
            SiblingStatus::Failed => {
                failed = true;
                succeeded = false;
            },
            SiblingStatus::Pending => {
                succeeded = false;
            },
            SiblingStatus::Succeeded => {},
        }
        i += 1;
    }
    if failed {
        PollDecision::Abort(BarrierAbort::SiblingFailed)
    } else if succeeded {
        PollDecision::Proceed
    } else if waited >= max_wait {
        PollDecision::Abort(BarrierAbort::Timeout)
    } else {
        PollDecision::Wait
    }
}

/// A failed sibling aborts the leader with `SiblingFailed`, whatever the
/// other siblings report and however long was waited.
pub proof fn lemma_sibling_failure_aborts(s: Seq<SiblingStatus>, i: int, waited: u64, max_wait: u64)
    requires
        0 <= i < s.len(),
        s[i] == SiblingStatus::Failed,
    ensures
        poll_spec(s, waited, max_wait) == PollDecision::Abort(BarrierAbort::SiblingFailed),
{
}

/// The barrier outcome of a settled poll decision.
pub fn leader_outcome(d: PollDecision) -> (r: BarrierOutcome)
    requires
        d != PollDecision::Wait,
    ensures
        d == PollDecision::Proceed ==> r == BarrierOutcome::LeaderProceed,
        forall|a: BarrierAbort| d == PollDecision::Abort(a) ==> r == BarrierOutcome::LeaderAbort(a),
{
    match d {
        PollDecision::Proceed => BarrierOutcome::LeaderProceed,
        PollDecision::Abort(reason) => BarrierOutcome::LeaderAbort(reason),
        PollDecision::Wait => {
            proof {
                assert(false);
            }
            BarrierOutcome::LeaderProceed
        },
    }
}

} // verus!
