//! The states jobs and tasks go through, and the words for them.

use jobmanager::error::JobError;
use jobmanager::status::{DependencyTolerance, JobStatus, SkipCause, TaskResolution, TaskStatus};

const STATES: [JobStatus; 4] = [
    JobStatus::Started,
    JobStatus::Running,
    JobStatus::Completed,
    JobStatus::Failed,
];

/// The label a consumer writes its dashboards and alerts against. Stated literally rather than derived
/// from the variant, so renaming one fails here instead of silently in the consumer.
#[test]
fn a_task_resolution_is_measured_under_its_own_label() {
    assert_eq!(TaskResolution::Completed.as_str(), "completed");
    assert_eq!(TaskResolution::Failed.as_str(), "failed");
    assert_eq!(TaskResolution::Skipped.as_str(), "skipped");
}

/// The whole table of moves an iteration may make.
#[test]
fn an_iteration_moves_only_along_its_rules() {
    let allowed = [
        (JobStatus::Started, JobStatus::Running),
        (JobStatus::Started, JobStatus::Failed),
        (JobStatus::Running, JobStatus::Running),
        (JobStatus::Running, JobStatus::Completed),
        (JobStatus::Running, JobStatus::Failed),
        (JobStatus::Completed, JobStatus::Started),
        (JobStatus::Failed, JobStatus::Started),
    ];
    for from in STATES {
        for to in STATES {
            let mut status = from;
            let moved = status.transition_to(to);

            if allowed.contains(&(from, to)) {
                assert!(moved.is_ok(), "{from:?} to {to:?}");
                assert_eq!(status, to);
            } else {
                assert!(
                    matches!(moved, Err(JobError::InvalidStatusTransition { from: f, to: t }) if f == from && t == to),
                    "{from:?} to {to:?}"
                );
                assert_eq!(status, from, "a refused move must change nothing");
            }
        }
    }
}

/// An iteration that ended starts over or stays ended.
#[test]
fn a_finished_iteration_only_restarts() {
    for from in [JobStatus::Completed, JobStatus::Failed] {
        for to in STATES {
            assert_eq!(from.can_transition_to(&to).is_ok(), to == JobStatus::Started);
        }
    }
}

#[test]
fn a_refused_move_names_both_states() {
    let error = JobStatus::Completed.can_transition_to(&JobStatus::Running).unwrap_err();

    assert_eq!(error.message(), "invalid job status transition from completed to running");
}

#[test]
fn a_task_status_reads_as_words_and_as_a_name() {
    for (status, text, name) in [
        (TaskStatus::Todo, "todo", "Todo"),
        (TaskStatus::Blocked, "blocked", "Blocked"),
        (TaskStatus::Started, "started", "Started"),
        (TaskStatus::Completed, "completed", "Completed"),
        (TaskStatus::Failed, "failed", "Failed"),
        (
            TaskStatus::Skipped(SkipCause::ExecutorDecision),
            "skipped (executor decision)",
            "Skipped(ExecutorDecision)",
        ),
        (
            TaskStatus::Skipped(SkipCause::FailedDependency),
            "skipped (failed dependency)",
            "Skipped(FailedDependency)",
        ),
        (
            TaskStatus::Skipped(SkipCause::SkippedDependency),
            "skipped (skipped dependency)",
            "Skipped(SkippedDependency)",
        ),
    ] {
        assert_eq!(status.to_text(), text);
        assert_eq!(status.to_name(), name);
    }
}

#[test]
fn only_a_failed_dependency_carries_a_failure() {
    assert!(SkipCause::FailedDependency.carries_failure());
    assert!(!SkipCause::ExecutorDecision.carries_failure());
    assert!(!SkipCause::SkippedDependency.carries_failure());
}

#[test]
fn a_tolerance_is_declared_by_either_flag() {
    assert!(!DependencyTolerance::default().is_declared());
    assert!(DependencyTolerance { allows_failed: true, allows_skipped: false }.is_declared());
    assert!(DependencyTolerance { allows_failed: false, allows_skipped: true }.is_declared());
}
