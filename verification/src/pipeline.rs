//! The release pipeline orchestrator: the branch gate, the decision state
//! machine, and the ordered write sequence.

use vstd::prelude::*;

use crate::ci::{BarrierAbort, BarrierOutcome};
use crate::commit_analyzer::CommitType;
use crate::config::ConfigError;
use crate::text::str_eq;
use crate::version::{bump_spec, version_bump, Version};

verus! {

/// One side-effecting step of the write sequence, in its fixed order.
#[derive(Clone, Copy, Debug, PartialEq, Eq, Structural)]
pub enum Step {
    WriteManifest,
    WriteChangelog,
    RefreshLock,
    BuildPackage,
    CommitFiles,
    CreateTag,
    Push,
    CreateRelease,
    PublishCrate,
}

/// Where a run of the pipeline ends.
#[derive(Clone, Copy, Debug, PartialEq, Eq, Structural)]
pub enum PipelineOutcome {
    /// Branch mismatch, pull-request context, or not the build leader:
    /// a successful no-op.
    Skip,
    /// The barrier aborted: a reported failure.
    BarrierAborted(BarrierAbort),
    /// No qualifying commits: a successful no-op.
    NoRelease,
    /// Dry run: report the would-be version and changelog, mutate nothing.
    DryRunReport,
    /// Write mode: run the write sequence.
    WriteSequence,
}

/// Why a run of the pipeline failed.
#[derive(Clone, Copy, Debug, PartialEq, Eq, Structural)]
pub enum PipelineError {
    /// A required setting was missing (before the pipeline ran).
    Config(ConfigError),
    /// The barrier aborted.
    Barrier(BarrierAbort),
    /// A write-sequence step failed; the later steps were not attempted.
    Step(Step),
}

/// What one run of the pipeline does: its terminal outcome, the new version
/// when one was computed, and the side-effecting steps to perform, in order.
pub struct PipelinePlan {
    pub outcome: PipelineOutcome,
    pub new_version: Option<Version>,
    pub steps: Vec<Step>,
}

/// Whether releases happen from this state: the branch must be the
/// configured release branch and the run must not be a pull-request build
/// (`pull_request` holds the CI pull-request setting when there is one;
/// any value but `false` marks a pull request).
pub open spec fn release_branch_spec(
    current: Seq<char>,
    release: Seq<char>,
    pull_request: Option<Seq<char>>,
) -> bool {
    (match pull_request {
        Some(pr) => pr == "false"@,
        None => true,
    }) && current == release
}

/// The branch gate: releases happen only from the configured release
/// branch, and never from a pull-request build.
pub fn is_release_branch(current: &str, release: &str, pull_request: Option<&str>) -> (r: bool)
    ensures
        r == release_branch_spec(
            current@,
            release@,
            match pull_request {
                Some(pr) => Some(pr@),
                None => None,
            },
        ),
{
    match pull_request {
        Some(pr) => {
            if !str_eq(pr, "false") {
                return false;
            }
        },
        None => {},
    }
    str_eq(current, release)
}

/// The steps of the write sequence. Refreshing the lock, pushing, creating
/// the remote release and publishing happen only in release mode; a
/// write-only run stops after the local tag.
pub open spec fn write_sequence_spec(release_mode: bool) -> Seq<Step> {
    if release_mode {
        seq![
            Step::WriteManifest,
            Step::WriteChangelog,
            Step::RefreshLock,
            Step::BuildPackage,
            Step::CommitFiles,
            Step::CreateTag,
            Step::Push,
            Step::CreateRelease,
            Step::PublishCrate,
        ]
    } else {
        seq![
            Step::WriteManifest,
            Step::WriteChangelog,
            Step::BuildPackage,
            Step::CommitFiles,
            Step::CreateTag,
        ]
    }
}

/// Builds the ordered write sequence for the mode.
pub fn write_sequence(release_mode: bool) -> (steps: Vec<Step>)
    ensures
        steps@ == write_sequence_spec(release_mode),
{
    let mut steps: Vec<Step> = Vec::new();
    steps.push(Step::WriteManifest);
    steps.push(Step::WriteChangelog);
    if release_mode {
        steps.push(Step::RefreshLock);
    }
    steps.push(Step::BuildPackage);
    steps.push(Step::CommitFiles);
    steps.push(Step::CreateTag);
    if release_mode {
        steps.push(Step::Push);
        steps.push(Step::CreateRelease);
        steps.push(Step::PublishCrate);
    }
    proof {
        assert(steps@ =~= write_sequence_spec(release_mode));
    }
    steps
}

/// The terminal outcome of a run: the branch gate first, then the barrier,
/// then the version decision, then the mode.
pub open spec fn outcome_spec(
    dry_run: bool,
    branch_ok: bool,
    barrier: BarrierOutcome,
    current: Version,
    bump: CommitType,
) -> PipelineOutcome {
    if !branch_ok {
        PipelineOutcome::Skip
    } else {
        match barrier {
            BarrierOutcome::NotLeader => PipelineOutcome::Skip,
            BarrierOutcome::LeaderAbort(reason) => PipelineOutcome::BarrierAborted(reason),
            BarrierOutcome::LeaderProceed => match bump_spec(current, bump) {
                None => PipelineOutcome::NoRelease,
                Some(_) => if dry_run {
                    PipelineOutcome::DryRunReport
                } else {
                    PipelineOutcome::WriteSequence
                },
            },
        }
    }
}

/// The new version a run computes: present exactly when the run passes the
/// branch gate and the barrier and some commit qualifies.
pub open spec fn planned_version_spec(
    branch_ok: bool,
    barrier: BarrierOutcome,
    current: Version,
    bump: CommitType,
) -> Option<Version> {
    if branch_ok && barrier == BarrierOutcome::LeaderProceed {
        bump_spec(current, bump)
    } else {
        None
    }
}

/// The steps a run performs: the write sequence in write mode, nothing in
/// every other outcome.
pub open spec fn steps_spec(
    dry_run: bool,
    release_mode: bool,
    branch_ok: bool,
    barrier: BarrierOutcome,
    current: Version,
    bump: CommitType,
) -> Seq<Step> {
    if outcome_spec(dry_run, branch_ok, barrier, current, bump) == PipelineOutcome::WriteSequence {
        write_sequence_spec(release_mode)
    } else {
        Seq::empty()
    }
}

/// Decides one run of the pipeline: gate on the branch, obey the barrier,
/// compute the version decision, and plan the write sequence only in write
/// mode.
pub fn decide_pipeline(
    dry_run: bool,
    release_mode: bool,
    branch_ok: bool,
    barrier: BarrierOutcome,
    current: &Version,
    bump: CommitType,
) -> (p: PipelinePlan)
    requires
        bump == CommitType::Patch ==> current.patch < u64::MAX,
        bump == CommitType::Minor ==> current.minor < u64::MAX,
        bump == CommitType::Major ==> current.major < u64::MAX,
    ensures
        p.outcome == outcome_spec(dry_run, branch_ok, barrier, *current, bump),
        p.new_version == planned_version_spec(branch_ok, barrier, *current, bump),
        p.steps@ == steps_spec(dry_run, release_mode, branch_ok, barrier, *current, bump),
{
    if !branch_ok {
        return PipelinePlan {
            outcome: PipelineOutcome::Skip,
            new_version: None,
            steps: Vec::new(),
        };
    }
    match barrier {
        BarrierOutcome::NotLeader => PipelinePlan {
            outcome: PipelineOutcome::Skip,
            new_version: None,
            steps: Vec::new(),
        },
        BarrierOutcome::LeaderAbort(reason) => PipelinePlan {
            outcome: PipelineOutcome::BarrierAborted(reason),
            new_version: None,
            steps: Vec::new(),
        },
        BarrierOutcome::LeaderProceed => {
            match version_bump(current, bump) {
                None => PipelinePlan {
                    outcome: PipelineOutcome::NoRelease,
                    new_version: None,
                    steps: Vec::new(),
                },
                Some(new_version) => {
                    if dry_run {
                        PipelinePlan {
                            outcome: PipelineOutcome::DryRunReport,
                            new_version: Some(new_version),
                            steps: Vec::new(),
                        }
                    } else {
                        PipelinePlan {
                            outcome: PipelineOutcome::WriteSequence,
                            new_version: Some(new_version),
                            steps: write_sequence(release_mode),
                        }
                    }
                },
            }
        },
    }
}

/// When no commit qualifies, the pipeline reaches `NoRelease`, computes no
/// version, and performs no step: the manifest and the changelog are left
/// untouched.
pub proof fn lemma_no_release_no_mutation(
    dry_run: bool,
    release_mode: bool,
    current: Version,
)
    ensures
        outcome_spec(dry_run, true, BarrierOutcome::LeaderProceed, current, CommitType::Unknown)
            == PipelineOutcome::NoRelease,
        planned_version_spec(true, BarrierOutcome::LeaderProceed, current, CommitType::Unknown)
            is None,
        steps_spec(
            dry_run,
            release_mode,
            true,
            BarrierOutcome::LeaderProceed,
            current,
            CommitType::Unknown,
        ) == Seq::<Step>::empty(),
{
}

/// A run that fails the branch gate skips: no version, no step, whatever
/// the barrier or the commits would have said.
pub proof fn lemma_branch_gate_skips(
    dry_run: bool,
    release_mode: bool,
    barrier: BarrierOutcome,
    current: Version,
    bump: CommitType,
)
    ensures
        outcome_spec(dry_run, false, barrier, current, bump) == PipelineOutcome::Skip,
        planned_version_spec(false, barrier, current, bump) is None,
        steps_spec(dry_run, release_mode, false, barrier, current, bump) == Seq::<Step>::empty(),
{
}

/// A barrier abort ends the run before any write-sequence step.
pub proof fn lemma_barrier_abort_stops_run(
    dry_run: bool,
    release_mode: bool,
    reason: BarrierAbort,
    current: Version,
    bump: CommitType,
)
    ensures
        outcome_spec(dry_run, true, BarrierOutcome::LeaderAbort(reason), current, bump)
            == PipelineOutcome::BarrierAborted(reason),
        steps_spec(
            dry_run,
            release_mode,
            true,
            BarrierOutcome::LeaderAbort(reason),
            current,
            bump,
        ) == Seq::<Step>::empty(),
{
}

/// A dry run computes and reports the would-be new version but performs no
/// step at all.
pub proof fn lemma_dry_run_mutates_nothing(
    release_mode: bool,
    current: Version,
    bump: CommitType,
)
    requires
        bump != CommitType::Unknown,
    ensures
        outcome_spec(true, true, BarrierOutcome::LeaderProceed, current, bump)
            == PipelineOutcome::DryRunReport,
        planned_version_spec(true, BarrierOutcome::LeaderProceed, current, bump) == bump_spec(
            current,
            bump,
        ),
        planned_version_spec(true, BarrierOutcome::LeaderProceed, current, bump) is Some,
        steps_spec(true, release_mode, true, BarrierOutcome::LeaderProceed, current, bump)
            == Seq::<Step>::empty(),
{
}

} // verus!
