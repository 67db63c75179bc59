//! Errors: what they say, and what they turn into.

use jobmanager::error::{Error, InternalError, JobError, StorageError, StorageErrorKind};
use jobmanager::retrier::RetryError;
use jobmanager::status::JobStatus;

fn storage_error(kind: StorageErrorKind) -> StorageError {
    StorageError {
        kind,
        message: "said the backend".to_string(),
    }
}

#[test]
fn no_public_error_is_retryable() {
    assert!(!Error::Cancelled.is_retryable());
    assert!(!Error::Other("x".into()).is_retryable());
    assert!(!Error::TaskExecution("boom".into()).is_retryable());
}

/// The cause must survive the conversion into the internal error, not be flattened to a placeholder:
/// the worker records that text as the task's failure reason.
#[test]
fn task_execution_keeps_its_message_in_the_internal_error() {
    let internal = InternalError::from(Error::TaskExecution("boom".to_string()));
    assert!(matches!(internal, InternalError::Other(ref msg) if msg == "boom"));
}

#[test]
fn every_public_error_keeps_its_words_inside_the_pool() {
    for (error, expected) in [
        (Error::Serialization("bad json".into()), "bad json"),
        (Error::Cancelled, "operation cancelled"),
        (Error::TaskExecution("boom".into()), "boom"),
        (Error::Other("inner".into()), "inner"),
    ] {
        assert_eq!(error.message(), expected);
        assert_eq!(InternalError::from(error).message(), expected);
    }
}

#[test]
fn a_job_error_says_what_is_wrong() {
    assert_eq!(JobError::TaskNotFound.message(), "task not found");
    assert_eq!(JobError::TaskWorkerMismatch.message(), "task worker mismatch");
    assert_eq!(
        JobError::InvalidStatusTransition {
            from: JobStatus::Started,
            to: JobStatus::Completed
        }
        .message(),
        "invalid job status transition from started to completed"
    );
    assert_eq!(JobError::Other("words".into()).message(), "words");
    assert_eq!(InternalError::from(JobError::TaskNotFound).message(), "task not found");
}

#[test]
fn a_storage_error_is_sorted_by_its_kind() {
    for (kind, conflict, retryable, missing) in [
        (StorageErrorKind::NotFound, false, false, true),
        (StorageErrorKind::Cancelled, false, false, false),
        (StorageErrorKind::ConcurrentModification, true, false, false),
        (StorageErrorKind::ServiceUnavailable, false, true, false),
        (StorageErrorKind::Other, false, false, false),
    ] {
        let error = storage_error(kind);
        assert_eq!(error.is_conflict(), conflict, "{kind:?}");
        assert_eq!(error.is_retryable(), retryable, "{kind:?}");
        assert_eq!(error.is_not_found(), missing, "{kind:?}");
    }
}

/// A cancellation the backend reports is the cancellation itself, not a failure of the backend.
#[test]
fn a_cancelled_storage_call_is_a_cancellation() {
    assert!(InternalError::from(storage_error(StorageErrorKind::Cancelled)).is_cancelled());

    let failed = InternalError::from(storage_error(StorageErrorKind::ServiceUnavailable));
    assert!(!failed.is_cancelled());
    assert_eq!(failed.message(), "said the backend");
}

#[test]
fn spent_attempts_carry_the_last_cause() {
    let spent = InternalError::from_spent_attempts(InternalError::Other("cause".into()));

    assert_eq!(spent.message(), "max retry attempts reached: cause");
    assert!(matches!(&spent, InternalError::MaxAttemptsReached(cause) if cause.message() == "cause"));
    assert!(InternalError::from_cancellation().is_cancelled());
}
