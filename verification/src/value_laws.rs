//! What the values jobs are made of say of themselves.

use vstd::prelude::*;

use crate::code::{JobCode, TaskCode};
use crate::definition::JobDefinitionId;
use crate::error::{
    Error, ErrorView, InternalError, InternalErrorView, JobError, JobErrorView, StorageError,
    StorageErrorKind,
};
use crate::handle_laws::is_reading;
use crate::outcome::TaskOutcome;
use crate::retrier::RetryError;
use crate::status::{DependencyTolerance, SkipCause, TaskRetry, TaskStatus};
use crate::task::{Task, TaskDefinition, TaskRef, TaskRefKind, Uuid};
use crate::time::{is_dated, is_delta, Duration, Moment, TimeDelta};

verus! {

// Tasks

/// What a task holds is read as it is.
pub proof fn law_task_is_read_as_it_is(
    task: &Task,
    id: &Uuid,
    code: &TaskCode,
    status: &TaskStatus,
    worker: Uuid,
    perhaps_id: Option<Uuid>,
    delta: TimeDelta,
    count: u32,
    moment: Option<Moment>,
    bytes: &[u8],
    reason: &str,
    retry: TaskRetry,
    tolerance: DependencyTolerance,
    ids: &[Uuid],
)
    ensures
        call_ensures(Task::id, (task,), id) ==> *id == task@.id,
        call_ensures(Task::code, (task,), code) ==> code@ == task@.code,
        call_ensures(Task::status, (task,), status) ==> *status == task@.status,
        call_ensures(Task::processing_by_worker, (task,), perhaps_id) ==> perhaps_id
            == task@.processing_by_worker,
        call_ensures(Task::created_by_worker, (task,), worker) ==> worker
            == task@.created_by_worker,
        call_ensures(Task::created_by_task, (task,), perhaps_id) ==> perhaps_id
            == task@.created_by_task,
        call_ensures(Task::timeout, (task,), delta) ==> delta@ == task@.timeout,
        call_ensures(Task::max_lifetime, (task,), delta) ==> delta@ == task@.max_lifetime,
        call_ensures(Task::attempt, (task,), count) ==> count == task@.attempt,
        call_ensures(Task::max_attempts, (task,), count) ==> count == task@.max_attempts,
        call_ensures(Task::started_at, (task,), moment) ==> is_reading(moment, task@.started_at),
        call_ensures(Task::completed_at, (task,), moment) ==> is_reading(
            moment,
            task@.completed_at,
        ),
        call_ensures(Task::deadline_at, (task,), moment) ==> is_reading(moment, task@.deadline_at),
        call_ensures(Task::lifetime_deadline_at, (task,), moment) ==> is_reading(
            moment,
            task@.lifetime_deadline_at,
        ),
        call_ensures(Task::input, (task,), bytes) ==> bytes@ == task@.input,
        call_ensures(Task::output, (task,), bytes) ==> bytes@ == task@.output,
        call_ensures(Task::resolution_reason, (task,), reason) ==> reason@
            == task@.resolution_reason,
        call_ensures(Task::retry, (task,), retry) ==> retry == task@.retry,
        call_ensures(Task::tolerance, (task,), tolerance) ==> tolerance == task@.tolerance,
        call_ensures(Task::depends_on, (task,), ids) ==> ids@ == task@.depends_on,
{
}

/// Which state a task is in is told apart.
pub proof fn law_task_states_are_told_apart(task: &Task, answer: bool, cause: Option<SkipCause>)
    ensures
        call_ensures(Task::is_completed, (task,), answer) ==> (answer <==> task@.status
            == TaskStatus::Completed),
        call_ensures(Task::is_failed, (task,), answer) ==> (answer <==> task@.status
            == TaskStatus::Failed),
        call_ensures(Task::is_started, (task,), answer) ==> (answer <==> task@.status
            == TaskStatus::Started),
        call_ensures(Task::is_skipped, (task,), answer) ==> (answer <==> task@.status is Skipped),
        call_ensures(Task::skip_cause, (task,), cause) ==> {
            &&& cause is Some <==> task@.status is Skipped
            &&& cause matches Some(cause) ==> task@.status == TaskStatus::Skipped(cause)
        },
{
}

/// What a definition holds is read as it is, and a reference names what it was made of.
pub proof fn law_definition_is_read_as_it_is(
    definition: &TaskDefinition,
    code: &TaskCode,
    bytes: &[u8],
    span: Duration,
    count: u32,
    tolerance: DependencyTolerance,
    references: &Vec<TaskRef>,
    reference: TaskRef,
    job: JobDefinitionId,
    position: usize,
    id: Uuid,
    kind: TaskRefKind,
)
    ensures
        call_ensures(TaskDefinition::code, (definition,), code) ==> code@ == definition@.code,
        call_ensures(TaskDefinition::input, (definition,), bytes) ==> bytes@ == definition@.input,
        call_ensures(TaskDefinition::timeout, (definition,), span) ==> span@
            == definition@.timeout,
        call_ensures(TaskDefinition::max_lifetime, (definition,), span) ==> span@
            == definition@.max_lifetime,
        call_ensures(TaskDefinition::max_attempts, (definition,), count) ==> count
            == definition@.max_attempts,
        call_ensures(TaskDefinition::tolerance, (definition,), tolerance) ==> tolerance
            == definition@.tolerance,
        call_ensures(TaskDefinition::depends_on, (definition,), references) ==> references@
            == definition@.depends_on,
        call_ensures(TaskRef::initial, (job, position), reference) ==> reference@ == (
        TaskRefKind::Initial { job_definition: job, position }),
        call_ensures(TaskRef::created, (id,), reference) ==> reference@ == TaskRefKind::Created(id),
        call_ensures(TaskRef::kind, (reference,), kind) ==> kind == reference@,
{
}

/// Codes are kept and compared by their text.
pub proof fn law_codes_are_their_text(
    text: &str,
    job: JobCode,
    other_job: &JobCode,
    task: TaskCode,
    other_task: &TaskCode,
    same: bool,
)
    ensures
        call_ensures(JobCode::new, (text,), job) ==> job@ == text@,
        call_ensures(JobCode::as_str, (&job,), text) ==> text@ == job@,
        call_ensures(JobCode::equals, (&job, other_job), same) ==> (same <==> job@ == other_job@),
        call_ensures(TaskCode::new, (text,), task) ==> task@ == text@,
        call_ensures(TaskCode::as_str, (&task,), text) ==> text@ == task@,
        call_ensures(TaskCode::equals, (&task, other_task), same) ==> (same <==> task@
            == other_task@),
{
}

// Rules

/// Only a skip behind a failure carries it on; tolerance is declared where either state is tolerated, and
/// neither is unless declared; a refusal is repeated unless it is said to be final.
pub proof fn law_rules_stand_as_declared(
    cause: SkipCause,
    tolerance: DependencyTolerance,
    answer: bool,
    retry: TaskRetry,
    outcome: TaskOutcome,
)
    ensures
        call_ensures(SkipCause::carries_failure, (cause,), answer) ==> (answer <==> !(cause
            == SkipCause::ExecutorDecision || cause == SkipCause::SkippedDependency)),
        call_ensures(DependencyTolerance::is_declared, (tolerance,), answer) ==> (!answer
            <==> !tolerance.allows_failed && !tolerance.allows_skipped),
        call_ensures(DependencyTolerance::default, (), tolerance) ==> !tolerance.allows_failed
            && !tolerance.allows_skipped,
        call_ensures(TaskRetry::default, (), retry) ==> retry != TaskRetry::Never,
        call_ensures(TaskOutcome::empty, (), outcome) ==> outcome is Completed
            && outcome->Completed_0@.len() == 0,
{
}

// Errors

/// Storage errors are told apart by their kind, and an error of the pool's users is never worth retrying.
pub proof fn law_errors_are_told_apart(
    storage: &StorageError,
    internal: &InternalError,
    error: &Error,
    answer: bool,
)
    ensures
        call_ensures(StorageError::is_conflict, (storage,), answer) ==> (answer <==> storage@.kind
            == StorageErrorKind::ConcurrentModification),
        call_ensures(StorageError::is_retryable, (storage,), answer) ==> (answer <==> storage@.kind
            == StorageErrorKind::ServiceUnavailable),
        call_ensures(StorageError::is_not_found, (storage,), answer) ==> (answer <==> storage@.kind
            == StorageErrorKind::NotFound),
        call_ensures(InternalError::is_cancelled, (internal,), answer) ==> (answer <==> internal@
            == InternalErrorView::Cancelled),
        call_ensures(Error::is_retryable, (error,), answer) ==> !answer,
{
}

/// An error says what it was given to say.
pub proof fn law_errors_keep_their_words(
    job: &JobError,
    error: &Error,
    internal: &InternalError,
    text: String,
)
    ensures
        call_ensures(JobError::message, (job,), text) ==> (job@ matches JobErrorView::Other(message)
            ==> text@ == message),
        call_ensures(Error::message, (error,), text) ==> match error@ {
            ErrorView::Serialization(message) => text@ == message,
            ErrorView::TaskExecution(message) => text@ == message,
            ErrorView::Other(message) => text@ == message,
            ErrorView::Cancelled => true,
        },
        call_ensures(InternalError::message, (internal,), text) ==> match internal@ {
            InternalErrorView::Storage(error) => text@ == error.message,
            InternalErrorView::Job(JobErrorView::Other(message)) => text@ == message,
            InternalErrorView::Other(message) => text@ == message,
            _ => true,
        },
{
}

/// What a retried call ends with is told apart: a cancellation, or the last cause once its attempts are
/// spent.
pub proof fn law_retries_end_as_told(cause: InternalError, error: InternalError)
    ensures
        call_ensures(InternalError::from_cancellation, (), error) ==> error@
            == InternalErrorView::Cancelled,
        call_ensures(InternalError::from_spent_attempts, (cause,), error)
            ==> error@ is MaxAttemptsReached && *error@->MaxAttemptsReached_0 == cause@,
{
}

// Time

/// Spans are counted in nanoseconds, whatever they are made of.
pub proof fn law_spans_are_counted(
    secs: u64,
    nanos: u32,
    count: u64,
    made: Option<Duration>,
    span: Duration,
    wide: u128,
)
    ensures
        call_ensures(Duration::new, (secs, nanos), made) ==> {
            &&& made is Some <==> nanos < 1_000_000_000
            &&& made matches Some(span) ==> span@ == secs * 1_000_000_000 + nanos
        },
        call_ensures(Duration::zero, (), span) ==> span@ == 0,
        call_ensures(Duration::from_secs, (count,), span) ==> span@ == count * 1_000_000_000,
        call_ensures(Duration::from_millis, (count,), span) ==> span@ == count * 1_000_000,
        call_ensures(Duration::from_nanos, (count,), span) ==> span@ == count,
        call_ensures(Duration::longest, (), span) && call_ensures(
            Duration::as_nanos,
            (&span,),
            wide,
        ) ==> wide == u64::MAX * 1_000_000_000 + 999_999_999,
{
}

/// The parts of a span make it up.
pub proof fn law_parts_of_a_span_make_it_up(
    span: &Duration,
    secs: u64,
    nanos: u32,
    millis: u128,
    whole: u128,
    zero: bool,
)
    ensures
        call_ensures(Duration::as_secs, (span,), secs) && call_ensures(
            Duration::subsec_nanos,
            (span,),
            nanos,
        ) ==> nanos < 1_000_000_000 && secs * 1_000_000_000 + nanos == span@,
        call_ensures(Duration::as_millis, (span,), millis) ==> millis * 1_000_000 <= span@ < (millis
            + 1) * 1_000_000,
        call_ensures(Duration::as_nanos, (span,), whole) ==> whole == span@,
        call_ensures(Duration::is_zero, (span,), zero) ==> (zero <==> span@ == 0),
{
}

/// Spans are compared, added, multiplied and taken from each other by their length.
pub proof fn law_spans_are_reckoned_by_their_length(
    some: Duration,
    other: Duration,
    factor: u32,
    below: bool,
    span: Duration,
    perhaps: Option<Duration>,
    longest: Duration,
)
    requires
        call_ensures(Duration::longest, (), longest),
    ensures
        call_ensures(Duration::is_below, (&some, &other), below) ==> (below <==> some@ < other@),
        call_ensures(Duration::shorter, (some, other), span) ==> span@ <= some@ && span@ <= other@
            && (span == some || span == other),
        call_ensures(Duration::checked_add, (&some, &other), perhaps) ==> {
            &&& perhaps is Some <==> some@ + other@ <= longest@
            &&& perhaps matches Some(sum) ==> sum@ - other@ == some@
        },
        call_ensures(Duration::checked_mul, (&some, factor), perhaps) ==> {
            &&& perhaps is Some <==> some@ * factor <= longest@
            &&& perhaps matches Some(product) ==> product@ == some@ * factor
        },
        call_ensures(Duration::saturating_sub, (&some, &other), span) ==> {
            &&& some@ >= other@ ==> span@ + other@ == some@
            &&& some@ < other@ ==> span@ == 0
        },
{
}

/// Signed spans keep the length they are made of, and count whole milliseconds.
pub proof fn law_signed_spans_keep_their_length(
    millis: i64,
    span: Duration,
    zero: TimeDelta,
    delta: TimeDelta,
    made: Option<TimeDelta>,
)
    ensures
        call_ensures(TimeDelta::zero, (), zero) ==> zero@ == 0,
        call_ensures(TimeDelta::from_millis, (millis,), made) ==> {
            &&& made is Some <==> millis != i64::MIN
            &&& made matches Some(delta) ==> delta@ == millis * 1_000_000
        },
        call_ensures(TimeDelta::from_std, (span,), made) ==> {
            &&& made is Some <==> is_delta(span@)
            &&& made matches Some(delta) ==> delta@ == span@
        },
        call_ensures(TimeDelta::num_milliseconds, (&delta,), millis) ==> {
            &&& delta@ >= 0 ==> millis * 1_000_000 <= delta@ < (millis + 1) * 1_000_000
            &&& delta@ < 0 ==> (millis - 1) * 1_000_000 < delta@ <= millis * 1_000_000
        },
{
}

/// Moments are counted from the epoch and named by whole seconds and a rest.
pub proof fn law_moments_are_counted(
    secs: i64,
    nanos: u32,
    made: Option<Moment>,
    moment: &Moment,
    whole: i64,
    rest: u32,
)
    ensures
        call_ensures(Moment::from_timestamp, (secs, nanos), made) ==> {
            &&& made is Some <==> nanos < 1_000_000_000 && is_dated(secs * 1_000_000_000 + nanos)
            &&& made matches Some(moment) ==> moment@ == secs * 1_000_000_000 + nanos
        },
        call_ensures(Moment::timestamp, (moment,), whole) && call_ensures(
            Moment::subsec_nanos,
            (moment,),
            rest,
        ) ==> rest < 1_000_000_000 && whole * 1_000_000_000 + rest == moment@,
{
}

/// Moments are compared, moved and measured against each other by the time between them.
pub proof fn law_moments_are_reckoned_by_the_time_between(
    some: Moment,
    other: Moment,
    delta: TimeDelta,
    after: bool,
    moment: Moment,
    moved: Option<Moment>,
    span: Duration,
    perhaps: Option<Duration>,
)
    ensures
        call_ensures(Moment::is_after, (&some, &other), after) ==> (after <==> some@ > other@),
        call_ensures(Moment::earlier, (some, other), moment) ==> moment@ <= some@ && moment@
            <= other@ && (moment == some || moment == other),
        call_ensures(Moment::checked_add_signed, (&some, delta), moved) ==> {
            &&& moved is Some <==> is_dated(some@ + delta@)
            &&& moved matches Some(moment) ==> moment@ - some@ == delta@
        },
        call_ensures(Moment::duration_since, (&some, &other), perhaps) ==> {
            &&& perhaps is Some <==> other@ <= some@
            &&& perhaps matches Some(span) ==> other@ + span@ == some@
        },
        call_ensures(Moment::saturating_duration_since, (&some, &other), span) ==> {
            &&& other@ <= some@ ==> other@ + span@ == some@
            &&& other@ > some@ ==> span@ == 0
        },
{
}

} // verus!
