use semantic_rs::ci::{
    barrier_gate, leader_outcome, poll_step, BarrierAbort, BarrierOutcome, PollDecision,
    SiblingStatus,
};
use semantic_rs::commit_analyzer::CommitType;
use semantic_rs::config::{build_config, dry_run_for, string_to_bool, ConfigError};
use semantic_rs::pipeline::{
    decide_pipeline, is_release_branch, write_sequence, PipelineOutcome, Step,
};
use semantic_rs::version::Version;

fn v(major: u64, minor: u64, patch: u64) -> Version {
    Version { major, minor, patch }
}

#[test]
fn feature_branch_is_skipped() {
    assert!(!is_release_branch("feature-x", "master", None));
}

#[test]
fn release_branch_passes_outside_pull_requests() {
    assert!(is_release_branch("master", "master", None));
    assert!(is_release_branch("master", "master", Some("false")));
}

#[test]
fn pull_requests_never_release() {
    assert!(!is_release_branch("master", "master", Some("123")));
    assert!(!is_release_branch("master", "master", Some("true")));
}

#[test]
fn branch_mismatch_plans_nothing() {
    let plan = decide_pipeline(
        false,
        true,
        false,
        BarrierOutcome::LeaderProceed,
        &v(1, 0, 0),
        CommitType::Major,
    );
    assert_eq!(plan.outcome, PipelineOutcome::Skip);
    assert_eq!(plan.new_version, None);
    assert!(plan.steps.is_empty());
}

#[test]
fn outside_ci_everyone_is_leader() {
    assert_eq!(barrier_gate(false, false, false), Some(BarrierOutcome::LeaderProceed));
}

#[test]
fn unreadable_ci_environment_aborts() {
    assert_eq!(
        barrier_gate(true, false, true),
        Some(BarrierOutcome::LeaderAbort(BarrierAbort::EnvironmentUnavailable))
    );
}

#[test]
fn non_leader_stops_without_polling() {
    assert_eq!(barrier_gate(true, true, false), Some(BarrierOutcome::NotLeader));
}

#[test]
fn leader_polls() {
    assert_eq!(barrier_gate(true, true, true), None);
}

#[test]
fn failed_sibling_aborts_the_leader() {
    let statuses = vec![
        SiblingStatus::Succeeded,
        SiblingStatus::Failed,
        SiblingStatus::Pending,
    ];
    let decision = poll_step(&statuses, 0, 1800);
    assert_eq!(decision, PollDecision::Abort(BarrierAbort::SiblingFailed));
    assert_eq!(
        leader_outcome(decision),
        BarrierOutcome::LeaderAbort(BarrierAbort::SiblingFailed)
    );
}

#[test]
fn all_succeeded_lets_the_leader_proceed() {
    let statuses = vec![SiblingStatus::Succeeded, SiblingStatus::Succeeded];
    assert_eq!(poll_step(&statuses, 500, 1800), PollDecision::Proceed);
}

#[test]
fn pending_siblings_mean_waiting_until_the_budget_runs_out() {
    let statuses = vec![SiblingStatus::Succeeded, SiblingStatus::Pending];
    assert_eq!(poll_step(&statuses, 500, 1800), PollDecision::Wait);
    assert_eq!(poll_step(&statuses, 1800, 1800), PollDecision::Abort(BarrierAbort::Timeout));
}

#[test]
fn sibling_failure_stops_the_run_before_any_step() {
    let plan = decide_pipeline(
        false,
        true,
        true,
        BarrierOutcome::LeaderAbort(BarrierAbort::SiblingFailed),
        &v(1, 0, 0),
        CommitType::Major,
    );
    assert_eq!(
        plan.outcome,
        PipelineOutcome::BarrierAborted(BarrierAbort::SiblingFailed)
    );
    assert!(plan.steps.is_empty());
}

#[test]
fn no_qualifying_commits_reach_no_release() {
    let plan = decide_pipeline(
        false,
        true,
        true,
        BarrierOutcome::LeaderProceed,
        &v(1, 2, 3),
        CommitType::Unknown,
    );
    assert_eq!(plan.outcome, PipelineOutcome::NoRelease);
    assert_eq!(plan.new_version, None);
    assert!(plan.steps.is_empty());
}

#[test]
fn dry_run_computes_but_mutates_nothing() {
    let plan = decide_pipeline(
        true,
        true,
        true,
        BarrierOutcome::LeaderProceed,
        &v(1, 2, 3),
        CommitType::Minor,
    );
    assert_eq!(plan.outcome, PipelineOutcome::DryRunReport);
    assert_eq!(plan.new_version, Some(v(1, 3, 0)));
    assert!(plan.steps.is_empty());
}

#[test]
fn write_and_release_runs_every_step_in_order() {
    let plan = decide_pipeline(
        false,
        true,
        true,
        BarrierOutcome::LeaderProceed,
        &v(1, 2, 3),
        CommitType::Patch,
    );
    assert_eq!(plan.outcome, PipelineOutcome::WriteSequence);
    assert_eq!(plan.new_version, Some(v(1, 2, 4)));
    assert_eq!(
        plan.steps,
        vec![
            Step::WriteManifest,
            Step::WriteChangelog,
            Step::RefreshLock,
            Step::BuildPackage,
            Step::CommitFiles,
            Step::CreateTag,
            Step::Push,
            Step::CreateRelease,
            Step::PublishCrate,
        ]
    );
}

#[test]
fn write_without_release_stops_at_the_local_tag() {
    let steps = write_sequence(false);
    assert_eq!(
        steps,
        vec![
            Step::WriteManifest,
            Step::WriteChangelog,
            Step::BuildPackage,
            Step::CommitFiles,
            Step::CreateTag,
        ]
    );
}

#[test]
fn release_mode_requires_every_remote_setting() {
    let err = build_config(
        "/repo".to_string(),
        "master".to_string(),
        false,
        true,
        "name".to_string(),
        "mail@example.com".to_string(),
        Some("user".to_string()),
        Some("repo".to_string()),
        None,
        Some("cargo-credential".to_string()),
    );
    assert_eq!(err.err(), Some(ConfigError::MissingGhToken));
}

#[test]
fn dry_run_needs_no_remote_settings() {
    let ok = build_config(
        "/repo".to_string(),
        "master".to_string(),
        true,
        true,
        "name".to_string(),
        "mail@example.com".to_string(),
        None,
        None,
        None,
        None,
    );
    assert!(ok.is_ok());
    let config = ok.unwrap();
    assert_eq!(config.branch, "master");
    assert!(config.dry_run);
    assert!(config.release_mode);
}

#[test]
fn ci_runs_are_never_dry() {
    assert!(!dry_run_for(true, false));
    assert!(!dry_run_for(true, true));
    assert!(dry_run_for(false, false));
    assert!(!dry_run_for(false, true));
}

#[test]
fn yes_answers_in_any_case() {
    assert!(string_to_bool("yes"));
    assert!(string_to_bool("YES"));
    assert!(string_to_bool("True"));
    assert!(string_to_bool("1"));
}

#[test]
fn everything_else_answers_no() {
    assert!(!string_to_bool("no"));
    assert!(!string_to_bool("false"));
    assert!(!string_to_bool("0"));
    assert!(!string_to_bool("maybe"));
    assert!(!string_to_bool(""));
}
