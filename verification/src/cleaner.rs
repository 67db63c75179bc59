//! Which old iterations are deleted.

use vstd::prelude::*;

use crate::code::JobCode;
use crate::definition::retention_boundary;
use crate::error::{InternalError, InternalErrorView, StorageError, StorageErrorKind};
use crate::registry::JobRegistry;
use crate::retrier::{RetrierConfig, RetrierConfigView, RetryStep};
use crate::time::Duration;

verus! {

/// Behavior of the background cleanup that deletes iterations which fell out of a job's retention
/// window.
#[derive(Debug)]
pub struct JobCleanerConfig {
    /// Whether the cleaner runs at all. Enabled by default; turning it off leaves every iteration in
    /// storage forever.
    ///
    /// Cleanup never affects the correctness of a job: a delete that is dropped or fails only leaves
    /// old state objects in the bucket, and the next start-up of any instance picks them up.
    pub enabled: bool,
    /// Retry policy for the cleaner's storage operations.
    pub retrier_config: RetrierConfig,
}

impl Clone for JobCleanerConfig {
    fn clone(&self) -> (copy: Self)
        ensures
            copy.enabled == self.enabled,
            copy.retrier_config@ == self.retrier_config@,
    {
        JobCleanerConfig { enabled: self.enabled, retrier_config: self.retrier_config.clone() }
    }
}

/// The policy cleanup calls are retried by unless another one is named.
pub open spec fn cleanup_policy() -> RetrierConfigView {
    RetrierConfigView {
        max_attempts: 3,
        rand_delay: 50_000_000,
        delays: seq![50_000_000, 300_000_000, 2_000_000_000],
    }
}

impl Default for JobCleanerConfig {
    fn default() -> (config: Self)
        ensures
            config.enabled,
            config.retrier_config@ == cleanup_policy(),
    {
        // Deliberately far shorter than the default policy: a cleanup that keeps retrying for minutes
        // stalls the queue of iterations waiting to be cleaned, and a dropped cleanup is recovered by
        // the next start-up reconciliation anyway.
        let mut delays: Vec<Duration> = Vec::new();
        delays.push(Duration::from_millis(50));
        delays.push(Duration::from_millis(300));
        delays.push(Duration::from_secs(2));
        let retrier_config = RetrierConfig {
            max_attempts: 3,
            rand_delay: Duration::from_millis(50),
            delays,
        };
        assert(retrier_config@.delays =~= cleanup_policy().delays);
        JobCleanerConfig { enabled: true, retrier_config }
    }
}

/// Report from a worker that it persisted the start of an iteration.
///
/// A fact, not a command: the worker states what happened and never waits for the cleanup.
#[derive(Debug)]
pub struct JobIterationStarted {
    /// Code of the job.
    pub job_code: JobCode,
    /// Number of the iteration.
    pub iter_num: u64,
}

/// The iterations the start of `iter_num` pushes out of the retention window of the job: the one at
/// the boundary, where there is one.
///
/// A single key per started iteration keeps the steady-state cost at one delete; any iteration missed
/// this way is collected by the next reconciliation.
pub fn iterations_to_delete(registry: &JobRegistry, message: &JobIterationStarted) -> (outdated: Vec<
    u64,
>)
    requires
        registry.well_formed(),
    ensures
        outdated@ == match deletable(registry, message.job_code@, message.iter_num) {
            Some(boundary) => seq![boundary],
            None => Seq::empty(),
        },
{
    let mut outdated: Vec<u64> = Vec::new();
    if let Some(boundary) = registry.calculate_retention_boundary(
        &message.job_code,
        message.iter_num,
    ) {
        outdated.push(boundary);
    }
    assert(outdated@ =~= match deletable(registry, message.job_code@, message.iter_num) {
        Some(boundary) => seq![boundary],
        None => Seq::empty(),
    });
    outdated
}

/// The newest iteration of a job that may be deleted while its current one is `iter_num`. Nothing may
/// be deleted of a job that left the registry, its retention being unknown.
pub open spec fn deletable(registry: &JobRegistry, job: Seq<char>, iter_num: u64) -> Option<u64> {
    if registry@.contains_key(job) {
        retention_boundary(iter_num, registry@[job].iteration_retention)
    } else {
        None
    }
}

/// Decides whether the outdated tail of a job is to be listed and deleted, given what looking up its
/// current iteration came to: the newest iteration that may go, or `None` where there is no tail.
///
/// A job no worker has created yet has no tail at all.
///
/// # Errors
///
/// Returns the error of the lookup, unless it says that the job does not exist.
pub fn plan_sweep(
    registry: &JobRegistry,
    job_code: &JobCode,
    current: Result<u64, InternalError>,
) -> (boundary: Result<Option<u64>, InternalError>)
    requires
        registry.well_formed(),
    ensures
        match current {
            Ok(iter_num) => boundary == Ok::<Option<u64>, InternalError>(
                deletable(registry, job_code@, iter_num),
            ),
            Err(error) => if error is Storage && error->Storage_0@.kind
                == StorageErrorKind::NotFound {
                boundary == Ok::<Option<u64>, InternalError>(None)
            } else {
                boundary == Err::<Option<u64>, InternalError>(error)
            },
        },
{
    match current {
        Ok(iter_num) => Ok(registry.calculate_retention_boundary(job_code, iter_num)),
        Err(InternalError::Storage(error)) => {
            if error.is_not_found() {
                Ok(None)
            } else {
                Err(InternalError::Storage(error))
            }
        },
        Err(error) => Err(error),
    }
}

/// Decides whether a storage call is repeated: one that failed for a passing reason is, any other
/// failure ends it.
///
/// The cleanup calls of a storage deliberately do not retry internally, so the bound on how long a
/// failing cleanup keeps trying lies with the policy this step is handed to.
pub fn retry_step<T>(called: Result<T, StorageError>) -> (step: Result<
    RetryStep<T, InternalError>,
    InternalError,
>)
    ensures
        match called {
            Ok(value) => step == Ok::<RetryStep<T, InternalError>, InternalError>(
                RetryStep::Done(value),
            ),
            Err(error) => if error@.kind == StorageErrorKind::ServiceUnavailable {
                step matches Ok(RetryStep::Retry(e)) && e@ == InternalErrorView::Storage(error@)
            } else if error@.kind == StorageErrorKind::Cancelled {
                step matches Err(e) && e@ == InternalErrorView::Cancelled
            } else {
                step matches Err(e) && e@ == InternalErrorView::Storage(error@)
            },
        },
{
    match called {
        Ok(value) => Ok(RetryStep::Done(value)),
        Err(error) => {
            if error.is_retryable() {
                Ok(RetryStep::Retry(InternalError::from(error)))
            } else {
                Err(InternalError::from(error))
            }
        },
    }
}

/// Whether the cleanup of further jobs is given up after this result: only a cancellation stops it, a
/// failure to clean one job never keeps the others from being cleaned.
pub fn stops_cleanup<T>(cleaned: &Result<T, InternalError>) -> (stops: bool)
    ensures
        stops == (*cleaned matches Err(e) && e@ == InternalErrorView::Cancelled),
{
    match cleaned {
        Ok(_) => false,
        Err(e) => e.is_cancelled(),
    }
}

/// Cleanup never reaches the current iteration of a job: what may be deleted lies strictly below it,
/// by at least the retention, and names an iteration there was.
pub proof fn law_current_iteration_is_undeletable(iter_num: u64, retention: u64)
    requires
        retention > 0,
    ensures
        retention_boundary(iter_num, retention) matches Some(boundary) ==> 1 <= boundary < iter_num
            && boundary + retention == iter_num,
{
}

/// Iteration numbers only grow, and with them the boundary: an iteration that may be deleted stays
/// deletable.
pub proof fn law_deletable_iterations_stay_deletable(earlier: u64, later: u64, retention: u64)
    requires
        earlier <= later,
    ensures
        retention_boundary(earlier, retention) matches Some(boundary) ==> retention_boundary(
            later,
            retention,
        ) is Some && boundary <= retention_boundary(later, retention)->Some_0,
{
}

} // verus!
