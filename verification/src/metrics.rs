//! Operational measurements.

use vstd::prelude::*;

use crate::code::{JobCode, TaskCode};
use crate::status::{JobStatus, TaskStatus};
use crate::time::Duration;

verus! {

/// Where the crate writes its operational measurements.
///
/// Every method has an empty default body, so an implementation overrides only the measurements it
/// cares about. Implementations are called from worker and storage code paths and must not block:
/// record and return.
pub trait MetricsSink: Send + Sync {
    /// The wall-clock duration of one job iteration, tagged with the job code and its final status.
    ///
    /// Called once per iteration, when it reaches a terminal state. `status` therefore takes both
    /// `Completed` (every task finished) and `Failed` (a task spent its attempt budget).
    fn record_job_iteration_complete(&self, code: &JobCode, status: &JobStatus, duration: Duration) {
    }

    /// The wall-clock duration of a single task execution, tagged with job code, task code and the
    /// task's final status.
    ///
    /// Called once per task, after it finishes processing, whether it completed or failed.
    fn record_task_processed(
        &self,
        job_code: &JobCode,
        task_code: &TaskCode,
        status: &TaskStatus,
        duration: Duration,
    ) {
    }

    /// The latency of one storage request, tagged with the operation name and its outcome.
    ///
    /// Called after every request the storage layer issues, on success and on failure alike.
    fn record_storage_operation(&self, operation: &str, status: &str, duration: Duration) {
    }

    /// A storage read served from the in-memory cache, tagged with the calling method.
    fn record_cache_hit(&self, method: &str) {
    }

    /// A storage read that had to fall through to the backing store, tagged with the calling method.
    fn record_cache_miss(&self, method: &str) {
    }

    /// A task this worker lost because another worker's conditional write won the race, tagged with
    /// job code, task code and the phase the conflict was detected in.
    fn record_task_stolen(&self, job_code: &JobCode, task_code: &TaskCode, phase: &'static str) {
    }

    /// A job save retried after an optimistic concurrency conflict, tagged with job code and the
    /// phase that triggered the retry.
    fn record_save_conflict_retry(&self, job_code: &JobCode, phase: &'static str) {
    }
}

/// Sink that records nothing: a pool measures nothing until a sink is supplied.
pub struct NoopMetrics;

impl MetricsSink for NoopMetrics {

}

} // verus!
