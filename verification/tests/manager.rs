//! The pool's settings, and what it tells whoever waits for a job.

use jobmanager::cleaner::JobCleanerConfig;
use jobmanager::code::JobCode;
use jobmanager::manager::{
    awaited_iteration, stopped_pool_error, worker_start_delay, FinishedIterations,
    JobsManagerConfig, WORKER_START_STAGGER_MS,
};
use jobmanager::time::Duration;

/// The job every fixture below records against.
const RECORDED_JOB: &str = "recorded_job";

fn finished_iterations() -> FinishedIterations {
    FinishedIterations::new(vec![JobCode::new(RECORDED_JOB)])
}

fn last_finished(finished_iterations: &FinishedIterations) -> Option<u64> {
    finished_iterations
        .last_finished(&JobCode::new(RECORDED_JOB))
        .expect("the pool runs this job")
}

#[test]
fn the_first_finished_iteration_is_recorded() {
    let mut finished_iterations = finished_iterations();

    finished_iterations.record_finished_iteration(&JobCode::new(RECORDED_JOB), 1);

    assert_eq!(last_finished(&finished_iterations), Some(1));
}

#[test]
fn a_later_iteration_moves_the_recorded_number_forward() {
    let mut finished_iterations = finished_iterations();

    finished_iterations.record_finished_iteration(&JobCode::new(RECORDED_JOB), 1);
    finished_iterations.record_finished_iteration(&JobCode::new(RECORDED_JOB), 2);

    assert_eq!(last_finished(&finished_iterations), Some(2));
}

/// A worker that read an older state on pickup reports the iteration it found there. Letting that
/// rewind the number would un-satisfy a condition a waiter has already met, and the wait would hang
/// until some further iteration finished.
#[test]
fn an_older_iteration_does_not_rewind_the_recorded_number() {
    let mut finished_iterations = finished_iterations();

    finished_iterations.record_finished_iteration(&JobCode::new(RECORDED_JOB), 5);
    finished_iterations.record_finished_iteration(&JobCode::new(RECORDED_JOB), 3);

    assert_eq!(last_finished(&finished_iterations), Some(5));
}

/// The same iteration is reported by every worker that picks it up, so a repeat has to be a no-op
/// rather than a change waiters are woken for.
#[test]
fn repeating_the_same_iteration_is_not_a_change() {
    let mut finished_iterations = finished_iterations();

    assert!(finished_iterations.record_finished_iteration(&JobCode::new(RECORDED_JOB), 4));
    assert_eq!(last_finished(&finished_iterations), Some(4));

    let news = finished_iterations.record_finished_iteration(&JobCode::new(RECORDED_JOB), 4);

    assert!(!news, "a repeated report must not wake the waiters again");
    assert_eq!(last_finished(&finished_iterations), Some(4));
}

/// A worker reports every iteration it finishes, and a pool that does not run that job has nowhere to
/// put the report - which is a fact about this pool, not an error.
#[test]
fn a_report_about_a_job_outside_the_pool_is_ignored() {
    let mut finished_iterations = finished_iterations();

    let news = finished_iterations.record_finished_iteration(&JobCode::new("job_of_another_pool"), 1);

    assert!(!news);
    assert_eq!(last_finished(&finished_iterations), None);
}

/// A caller cannot start waiting before the pool starts running, so the number has to stay readable
/// rather than be delivered once and lost.
#[test]
fn a_subscriber_that_arrives_after_the_report_still_sees_it() {
    let mut finished_iterations = finished_iterations();

    finished_iterations.record_finished_iteration(&JobCode::new(RECORDED_JOB), 7);

    assert_eq!(last_finished(&finished_iterations), Some(7));
    assert_eq!(last_finished(&finished_iterations), Some(7));
}

/// In whatever order two workers report, the later iteration is what waiters see.
#[test]
fn the_order_of_two_reports_does_not_matter() {
    for reports in [[3, 8], [8, 3]] {
        let mut finished_iterations = finished_iterations();
        for iter_num in reports {
            finished_iterations.record_finished_iteration(&JobCode::new(RECORDED_JOB), iter_num);
        }

        assert_eq!(last_finished(&finished_iterations), Some(8));
    }
}

#[test]
fn asking_after_a_job_outside_the_pool_is_an_error() {
    let error = finished_iterations().last_finished(&JobCode::new("other")).unwrap_err();

    assert_eq!(error.message(), "job 'other' is not run by this pool");
}

#[test]
fn a_wait_ends_at_the_awaited_iteration_or_a_later_one() {
    assert_eq!(awaited_iteration(None, None), None);
    assert_eq!(awaited_iteration(None, Some(1)), None);
    assert_eq!(awaited_iteration(Some(1), None), Some(1));
    assert_eq!(awaited_iteration(Some(1), Some(2)), None);
    assert_eq!(awaited_iteration(Some(2), Some(2)), Some(2));
    assert_eq!(awaited_iteration(Some(5), Some(2)), Some(5));
}

#[test]
fn a_wait_that_outlives_its_pool_says_so() {
    assert_eq!(
        stopped_pool_error(&JobCode::new("j")).message(),
        "the worker pool stopped before an iteration of job 'j' finished"
    );
}

#[test]
fn workers_start_one_stagger_apart() {
    assert_eq!(worker_start_delay(0, WORKER_START_STAGGER_MS), Duration::zero());
    assert_eq!(worker_start_delay(1, WORKER_START_STAGGER_MS), Duration::from_millis(50));
    assert_eq!(worker_start_delay(3, WORKER_START_STAGGER_MS), Duration::from_millis(150));
    assert_eq!(worker_start_delay(usize::MAX, u64::MAX), Duration::from_millis(u64::MAX));
}

#[test]
fn a_pool_without_workers_is_refused() {
    let mut config = JobsManagerConfig::default();
    assert_eq!(config.worker_count, 1);
    assert!(config.validate().is_ok());

    config.worker_count = 0;

    assert_eq!(config.validate().unwrap_err().message(), "worker count must be at least 1");
}

#[test]
fn the_cleaner_backlog_holds_five_passes_of_every_worker_over_every_job() {
    let mut config = JobsManagerConfig::default();
    config.worker_count = 3;

    assert_eq!(config.cleaner_backlog(4), 60);
}

#[test]
fn the_cleaner_retries_briefly_by_default() {
    let config = JobCleanerConfig::default();

    assert!(config.enabled);
    assert_eq!(config.retrier_config.max_attempts, 3);
    assert_eq!(config.retrier_config.rand_delay, Duration::from_millis(50));
    assert_eq!(
        config.retrier_config.delays,
        vec![Duration::from_millis(50), Duration::from_millis(300), Duration::from_secs(2)]
    );
}
