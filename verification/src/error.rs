//! What goes wrong, and what it says.

use vstd::prelude::*;

use crate::retrier::RetryError;
use crate::status::JobStatus;

verus! {

/// Error of an operation on the state of a job.
#[derive(Debug)]
pub enum JobError {
    /// The job does not hold the task.
    TaskNotFound,
    /// Another worker holds the task.
    TaskWorkerMismatch,
    /// The iteration cannot move between these states.
    InvalidStatusTransition {
        /// State the iteration is in.
        from: JobStatus,
        /// State it was to move to.
        to: JobStatus,
    },
    /// Anything else, in words.
    Other(String),
}

/// A [`JobError`] as contracts speak of it.
pub enum JobErrorView {
    /// The job does not hold the task.
    TaskNotFound,
    /// Another worker holds the task.
    TaskWorkerMismatch,
    /// The iteration cannot move between these states.
    InvalidStatusTransition {
        /// State the iteration is in.
        from: JobStatus,
        /// State it was to move to.
        to: JobStatus,
    },
    /// Anything else, in words.
    Other(Seq<char>),
}

impl View for JobError {
    type V = JobErrorView;

    open spec fn view(&self) -> JobErrorView {
        match *self {
            JobError::TaskNotFound => JobErrorView::TaskNotFound,
            JobError::TaskWorkerMismatch => JobErrorView::TaskWorkerMismatch,
            JobError::InvalidStatusTransition { from, to } => {
                JobErrorView::InvalidStatusTransition { from, to }
            },
            JobError::Other(message) => JobErrorView::Other(message@),
        }
    }
}

impl JobErrorView {
    /// What the error says.
    pub open spec fn text(self) -> Seq<char> {
        match self {
            JobErrorView::TaskNotFound => "task not found"@,
            JobErrorView::TaskWorkerMismatch => "task worker mismatch"@,
            JobErrorView::InvalidStatusTransition { from, to } => {
                "invalid job status transition from "@ + from.label() + " to "@ + to.label()
            },
            JobErrorView::Other(message) => message,
        }
    }
}

impl JobError {
    /// What the error says.
    pub fn message(&self) -> (text: String)
        ensures
            text@ == self@.text(),
    {
        match self {
            JobError::TaskNotFound => "task not found".to_owned(),
            JobError::TaskWorkerMismatch => "task worker mismatch".to_owned(),
            JobError::InvalidStatusTransition { from, to } => {
                let mut text = "invalid job status transition from ".to_owned();
                text.append(from.as_str());
                text.append(" to ");
                text.append(to.as_str());
                text
            },
            JobError::Other(message) => message.clone(),
        }
    }
}

/// Public error type for jobmanager operations.
#[derive(Debug)]
pub enum Error {
    /// Serialization or deserialization failed, for the reason given.
    Serialization(String),
    /// Operation was canceled.
    Cancelled,
    /// Task execution failed, with what the executor's error said.
    TaskExecution(String),
    /// Generic error message.
    Other(String),
}

/// An [`Error`] as contracts speak of it.
pub enum ErrorView {
    /// Serialization or deserialization failed, for the reason given.
    Serialization(Seq<char>),
    /// Operation was canceled.
    Cancelled,
    /// Task execution failed, with what the executor's error said.
    TaskExecution(Seq<char>),
    /// Generic error message.
    Other(Seq<char>),
}

impl View for Error {
    type V = ErrorView;

    open spec fn view(&self) -> ErrorView {
        match *self {
            Error::Serialization(message) => ErrorView::Serialization(message@),
            Error::Cancelled => ErrorView::Cancelled,
            Error::TaskExecution(message) => ErrorView::TaskExecution(message@),
            Error::Other(message) => ErrorView::Other(message@),
        }
    }
}

impl ErrorView {
    /// What the error says.
    pub open spec fn text(self) -> Seq<char> {
        match self {
            ErrorView::Serialization(message) => message,
            ErrorView::Cancelled => "operation cancelled"@,
            ErrorView::TaskExecution(message) => message,
            ErrorView::Other(message) => message,
        }
    }
}

impl Error {
    /// Whether retrying the operation that produced this error can succeed.
    ///
    /// Always false today: every variant that reaches a caller is either terminal or already the
    /// result of the storage layer's own retries. It exists so callers branch on a decision rather
    /// than on variants, matching [`StorageError::is_retryable`].
    pub fn is_retryable(&self) -> (retryable: bool)
        ensures
            !retryable,
    {
        false
    }

    /// What the error says.
    pub fn message(&self) -> (text: String)
        ensures
            text@ == self@.text(),
    {
        match self {
            Error::Serialization(message) => message.clone(),
            Error::Cancelled => "operation cancelled".to_owned(),
            Error::TaskExecution(message) => message.clone(),
            Error::Other(message) => message.clone(),
        }
    }
}

/// What kind of failure a storage backend reports.
#[derive(Debug, Clone, Copy, PartialEq, Eq, Structural)]
pub enum StorageErrorKind {
    /// The object does not exist.
    NotFound,
    /// The operation was cancelled.
    Cancelled,
    /// Another writer changed the object first.
    ConcurrentModification,
    /// The backend cannot serve the request right now.
    ServiceUnavailable,
    /// Any other failure.
    Other,
}

/// Failure of a storage backend: its kind, and what the backend says of it.
#[derive(Debug)]
pub struct StorageError {
    /// What kind of failure it is.
    pub kind: StorageErrorKind,
    /// What the backend says of it.
    pub message: String,
}

/// A [`StorageError`] as contracts speak of it.
pub struct StorageErrorView {
    /// What kind of failure it is.
    pub kind: StorageErrorKind,
    /// What the backend says of it.
    pub message: Seq<char>,
}

impl View for StorageError {
    type V = StorageErrorView;

    open spec fn view(&self) -> StorageErrorView {
        StorageErrorView { kind: self.kind, message: self.message@ }
    }
}

impl StorageError {
    /// Whether the write lost to another writer.
    pub fn is_conflict(&self) -> (conflict: bool)
        ensures
            conflict == (self@.kind == StorageErrorKind::ConcurrentModification),
    {
        self.kind == StorageErrorKind::ConcurrentModification
    }

    /// Whether repeating the operation can succeed.
    pub fn is_retryable(&self) -> (retryable: bool)
        ensures
            retryable == (self@.kind == StorageErrorKind::ServiceUnavailable),
    {
        self.kind == StorageErrorKind::ServiceUnavailable
    }

    /// Whether the object does not exist.
    pub fn is_not_found(&self) -> (missing: bool)
        ensures
            missing == (self@.kind == StorageErrorKind::NotFound),
    {
        self.kind == StorageErrorKind::NotFound
    }
}

/// Error of the work a pool does for itself.
#[derive(Debug)]
pub enum InternalError {
    /// The storage backend failed.
    Storage(StorageError),
    /// The state of a job does not allow the operation.
    Job(JobError),
    /// The operation was cancelled.
    Cancelled,
    /// Every attempt failed, the last one for this reason.
    MaxAttemptsReached(Box<InternalError>),
    /// Anything else, in words.
    Other(String),
}

/// An [`InternalError`] as contracts speak of it.
pub enum InternalErrorView {
    /// The storage backend failed.
    Storage(StorageErrorView),
    /// The state of a job does not allow the operation.
    Job(JobErrorView),
    /// The operation was cancelled.
    Cancelled,
    /// Every attempt failed, the last one for this reason.
    MaxAttemptsReached(Box<InternalErrorView>),
    /// Anything else, in words.
    Other(Seq<char>),
}

/// The view of an [`InternalError`], which may hold another one.
pub open spec fn internal_error_view(error: InternalError) -> InternalErrorView
    decreases error,
{
    match error {
        InternalError::Storage(error) => InternalErrorView::Storage(error@),
        InternalError::Job(error) => InternalErrorView::Job(error@),
        InternalError::Cancelled => InternalErrorView::Cancelled,
        InternalError::MaxAttemptsReached(cause) => {
            InternalErrorView::MaxAttemptsReached(Box::new(internal_error_view(*cause)))
        },
        InternalError::Other(message) => InternalErrorView::Other(message@),
    }
}

impl View for InternalError {
    type V = InternalErrorView;

    open spec fn view(&self) -> InternalErrorView {
        internal_error_view(*self)
    }
}

impl InternalErrorView {
    /// What the error says.
    pub open spec fn text(self) -> Seq<char>
        decreases self,
    {
        match self {
            InternalErrorView::Storage(error) => error.message,
            InternalErrorView::Job(error) => error.text(),
            InternalErrorView::Cancelled => "operation cancelled"@,
            InternalErrorView::MaxAttemptsReached(cause) => {
                "max retry attempts reached: "@ + cause.text()
            },
            InternalErrorView::Other(message) => message,
        }
    }
}

impl InternalError {
    /// What the error says.
    pub fn message(&self) -> (text: String)
        ensures
            text@ == self@.text(),
        decreases self,
    {
        match self {
            InternalError::Storage(error) => error.message.clone(),
            InternalError::Job(error) => error.message(),
            InternalError::Cancelled => "operation cancelled".to_owned(),
            InternalError::MaxAttemptsReached(cause) => {
                let mut text = "max retry attempts reached: ".to_owned();
                let reason = cause.message();
                text.append(reason.as_str());
                text
            },
            InternalError::Other(message) => message.clone(),
        }
    }

    /// Whether the operation was cancelled.
    pub fn is_cancelled(&self) -> (cancelled: bool)
        ensures
            cancelled == (self@ == InternalErrorView::Cancelled),
    {
        matches!(self, InternalError::Cancelled)
    }
}

impl From<JobError> for InternalError {
    fn from(error: JobError) -> Self {
        InternalError::Job(error)
    }
}

impl vstd::std_specs::convert::FromSpecImpl<JobError> for InternalError {
    open spec fn obeys_from_spec() -> bool {
        true
    }

    open spec fn from_spec(error: JobError) -> Self {
        InternalError::Job(error)
    }
}

impl From<StorageError> for InternalError {
    fn from(error: StorageError) -> Self {
        match error.kind {
            StorageErrorKind::Cancelled => InternalError::Cancelled,
            _ => InternalError::Storage(error),
        }
    }
}

impl vstd::std_specs::convert::FromSpecImpl<StorageError> for InternalError {
    open spec fn obeys_from_spec() -> bool {
        true
    }

    open spec fn from_spec(error: StorageError) -> Self {
        if error.kind == StorageErrorKind::Cancelled {
            InternalError::Cancelled
        } else {
            InternalError::Storage(error)
        }
    }
}

impl From<Error> for InternalError {
    fn from(error: Error) -> Self {
        match error {
            Error::Cancelled => InternalError::Cancelled,
            Error::Serialization(message) => InternalError::Other(message),
            Error::TaskExecution(message) => InternalError::Other(message),
            Error::Other(message) => InternalError::Other(message),
        }
    }
}

impl vstd::std_specs::convert::FromSpecImpl<Error> for InternalError {
    open spec fn obeys_from_spec() -> bool {
        true
    }

    open spec fn from_spec(error: Error) -> Self {
        match error {
            Error::Cancelled => InternalError::Cancelled,
            Error::Serialization(message) => InternalError::Other(message),
            Error::TaskExecution(message) => InternalError::Other(message),
            Error::Other(message) => InternalError::Other(message),
        }
    }
}

impl RetryError for InternalError {
    fn from_cancellation() -> (error: Self)
        ensures
            error@ == InternalErrorView::Cancelled,
    {
        InternalError::Cancelled
    }

    fn from_spent_attempts(last_cause: Self) -> (error: Self)
        ensures
            error@ == InternalErrorView::MaxAttemptsReached(Box::new(last_cause@)),
    {
        InternalError::MaxAttemptsReached(Box::new(last_cause))
    }
}

/// An error keeps its words on its way into the pool: what an [`InternalError`] made from an
/// [`Error`] says is what the error said.
pub proof fn law_internal_error_keeps_the_words(error: Error)
    ensures
        internal_error_view(
            <InternalError as vstd::std_specs::convert::FromSpec<Error>>::from_spec(error),
        ).text() == error@.text(),
{
}

} // verus!
