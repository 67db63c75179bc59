//! What a call on a task comes to, over every task it can be made on.

use vstd::prelude::*;

use crate::code::TaskCode;
use crate::definition::TaskLimits;
use crate::error::{JobError, JobErrorView};
use crate::status::{
    DependencyTolerance, SkipCause, TaskResolution, TaskRetry, TaskStatus,
};
use crate::task::{
    DependencyVerdict, RestoredTask, Task, TaskAvailability, TaskDefinition, TaskRef, TaskView, Uuid,
};
use crate::time::{is_dated, is_delta, longest_duration, Duration, Moment};

verus! {

/// Whether `limit` is set and lies before `now`.
pub open spec fn is_past(limit: Option<int>, now: int) -> bool {
    limit is Some && limit->Some_0 < now
}

/// Whether a worker may start a task in this state: it is ready; or it failed, may be repeated, and has
/// an attempt and lifetime left; or its owner's deadline has passed and its lifetime has not.
pub open spec fn can_run(task: TaskView, now: int) -> bool {
    ||| task.status == TaskStatus::Todo
    ||| task.status == TaskStatus::Failed && task.retry == TaskRetry::WhileBudgetLasts && task.attempt
        < task.max_attempts && !is_past(task.lifetime_deadline_at, now)
    ||| task.status == TaskStatus::Started && is_past(task.deadline_at, now) && !is_past(
        task.lifetime_deadline_at,
        now,
    )
}

/// Whether a task in this state failed and will not run again.
pub open spec fn failed_for_good(task: TaskView, now: int) -> bool {
    task.status == TaskStatus::Failed && (task.retry == TaskRetry::Never || task.attempt
        >= task.max_attempts || is_past(task.lifetime_deadline_at, now))
}

/// Whether `after` is `before` in the hands of `worker` since `now`: until the smaller of one timeout
/// from now and the end of its lifetime, that end being the one placed before or one lifetime ahead,
/// with an attempt spent unless a running task was taken over.
pub open spec fn is_start(before: TaskView, after: TaskView, worker: Uuid, now: int) -> bool {
    let end = after.lifetime_deadline_at->Some_0;
    let deadline = after.deadline_at->Some_0;
    &&& after.lifetime_deadline_at is Some && after.deadline_at is Some
    &&& before.lifetime_deadline_at is Some ==> after.lifetime_deadline_at
        == before.lifetime_deadline_at
    &&& before.lifetime_deadline_at is None ==> end == now + before.max_lifetime
    &&& deadline <= end && deadline <= now + before.timeout
    &&& deadline == end || deadline == now + before.timeout
    &&& after.status == TaskStatus::Started
    &&& after.processing_by_worker == Some(worker)
    &&& after.started_at == Some(now)
    &&& before.status == TaskStatus::Started ==> after.attempt == before.attempt
    &&& before.status != TaskStatus::Started ==> after.attempt == before.attempt + 1
    &&& after == (TaskView {
        status: after.status,
        processing_by_worker: after.processing_by_worker,
        started_at: after.started_at,
        deadline_at: after.deadline_at,
        lifetime_deadline_at: after.lifetime_deadline_at,
        attempt: after.attempt,
        ..before
    })
}

/// Whether `after` is `before` completed with `output` at `now`, and nothing else changed.
pub open spec fn is_result(before: TaskView, after: TaskView, output: Seq<u8>, now: int) -> bool {
    &&& after.status == TaskStatus::Completed
    &&& after.output == output
    &&& after.completed_at == Some(now)
    &&& after == (TaskView {
        status: after.status,
        output: after.output,
        completed_at: after.completed_at,
        ..before
    })
}

/// Whether `after` is `before` refused at `now` for this reason, and nothing else changed.
pub open spec fn is_refusal(
    before: TaskView,
    after: TaskView,
    reason: Seq<char>,
    retry: TaskRetry,
    now: int,
) -> bool {
    &&& after.status == TaskStatus::Failed
    &&& after.resolution_reason == reason
    &&& after.retry == retry
    &&& after.completed_at == Some(now)
    &&& after == (TaskView {
        status: after.status,
        resolution_reason: after.resolution_reason,
        retry: after.retry,
        completed_at: after.completed_at,
        ..before
    })
}

// Definitions

/// A definition nobody changed lives five timeouts, gets five attempts, and asks for nothing else.
pub proof fn law_definition_defaults(code: TaskCode, timeout: Duration, definition: TaskDefinition)
    requires
        call_ensures(TaskDefinition::new, (code, timeout), definition),
    ensures
        definition@.code == code@,
        definition@.timeout == timeout@,
        timeout@ * 5 <= longest_duration() ==> definition@.max_lifetime == timeout@ * 5,
        timeout@ * 5 > longest_duration() ==> definition@.max_lifetime == longest_duration(),
        definition@.max_attempts == 5,
        definition@.input.len() == 0,
        definition@.depends_on.len() == 0,
        !definition@.tolerance.allows_failed,
        !definition@.tolerance.allows_skipped,
{
}

/// Each setting of a definition replaces what was there and leaves every other one alone.
pub proof fn law_definition_settings_are_independent(
    definition: TaskDefinition,
    input: Vec<u8>,
    depends_on: Vec<TaskRef>,
    max_attempts: u32,
    max_lifetime: Duration,
    tolerance: DependencyTolerance,
    changed: TaskDefinition,
)
    ensures
        call_ensures(TaskDefinition::with_input, (definition, input), changed) ==> {
            &&& changed@.input == input@
            &&& changed@.code == definition@.code && changed@.timeout == definition@.timeout
            &&& changed@.max_lifetime == definition@.max_lifetime && changed@.depends_on
                == definition@.depends_on
            &&& changed@.max_attempts == definition@.max_attempts && changed@.tolerance
                == definition@.tolerance
        },
        call_ensures(TaskDefinition::with_dependencies, (definition, depends_on), changed) ==> {
            &&& changed@.depends_on == depends_on@
            &&& changed@.code == definition@.code && changed@.timeout == definition@.timeout
            &&& changed@.max_lifetime == definition@.max_lifetime && changed@.input
                == definition@.input
            &&& changed@.max_attempts == definition@.max_attempts && changed@.tolerance
                == definition@.tolerance
        },
        call_ensures(TaskDefinition::with_max_attempts, (definition, max_attempts), changed) ==> {
            &&& changed@.max_attempts == max_attempts
            &&& changed@.code == definition@.code && changed@.timeout == definition@.timeout
            &&& changed@.max_lifetime == definition@.max_lifetime && changed@.input
                == definition@.input
            &&& changed@.depends_on == definition@.depends_on && changed@.tolerance
                == definition@.tolerance
        },
        call_ensures(TaskDefinition::with_max_lifetime, (definition, max_lifetime), changed) ==> {
            &&& changed@.max_lifetime == max_lifetime@
            &&& changed@.code == definition@.code && changed@.timeout == definition@.timeout
            &&& changed@.max_attempts == definition@.max_attempts && changed@.input
                == definition@.input
            &&& changed@.depends_on == definition@.depends_on && changed@.tolerance
                == definition@.tolerance
        },
        call_ensures(TaskDefinition::with_dependency_tolerance, (definition, tolerance), changed)
            ==> {
            &&& changed@.tolerance == tolerance
            &&& changed@.code == definition@.code && changed@.timeout == definition@.timeout
            &&& changed@.max_attempts == definition@.max_attempts && changed@.input
                == definition@.input
            &&& changed@.depends_on == definition@.depends_on && changed@.max_lifetime
                == definition@.max_lifetime
        },
{
}

/// A definition passes exactly where both spans are positive and can be counted, the lifetime is no
/// shorter than the timeout, an attempt is granted and the input fits.
pub proof fn law_definition_passes_exactly_within_limits(
    definition: &TaskDefinition,
    limits: TaskLimits,
    verdict: Result<(), JobError>,
)
    requires
        call_ensures(TaskDefinition::validate, (definition, limits), verdict),
        definition@.timeout >= 0,
        definition@.max_lifetime >= 0,
        definition@.max_attempts >= 0,
    ensures
        verdict is Ok <==> {
            &&& 0 < definition@.timeout <= definition@.max_lifetime
            &&& is_delta(definition@.timeout) && is_delta(definition@.max_lifetime)
            &&& definition@.max_attempts >= 1
            &&& definition@.input.len() <= limits.max_input_bytes
        },
        verdict matches Err(e) ==> e@ is Other,
{
}

/// Tolerance describes something exactly where there is a dependency to tolerate.
pub proof fn law_tolerance_needs_a_dependency(definition: &TaskDefinition, valid: bool)
    requires
        call_ensures(TaskDefinition::is_declares_tolerance_valid, (definition,), valid),
    ensures
        valid <==> definition@.depends_on.len() > 0 || (!definition@.tolerance.allows_failed
            && !definition@.tolerance.allows_skipped),
{
}

// Creation

/// A task created from a definition that some job's limits accept carries what the definition names and
/// nothing of a history: it is ready exactly where it waits for nothing, and blocked otherwise.
pub proof fn law_task_carries_its_definition(
    id: Uuid,
    worker: Uuid,
    creator: Option<Uuid>,
    definition: &TaskDefinition,
    depends_on: Vec<Uuid>,
    limits: TaskLimits,
    task: Task,
)
    requires
        call_ensures(Task::new, (id, worker, creator, definition, depends_on), task),
        definition@.rejection(limits) is None,
    ensures
        task@.id == id,
        task@.code == definition@.code,
        task@.timeout == definition@.timeout,
        task@.max_lifetime == definition@.max_lifetime,
        task@.max_attempts == definition@.max_attempts,
        task@.input == definition@.input,
        task@.tolerance == definition@.tolerance,
        task@.depends_on == depends_on@,
        task@.created_by_worker == worker,
        task@.created_by_task == creator,
        task@.status == TaskStatus::Todo || task@.status == TaskStatus::Blocked,
        task@.status == TaskStatus::Todo <==> depends_on@.len() == 0,
        task@.processing_by_worker is None,
        task@.started_at is None && task@.completed_at is None,
        task@.deadline_at is None && task@.lifetime_deadline_at is None,
        task@.attempt == 0,
        task@.output.len() == 0 && task@.resolution_reason.len() == 0,
        task@.retry == TaskRetry::WhileBudgetLasts,
{
}

/// The first start of a task created from such a definition ends its lifetime the named lifetime after
/// that start, and hands it out for no longer than the named timeout.
pub proof fn law_first_start_counts_the_named_lifetime(
    id: Uuid,
    worker: Uuid,
    creator: Option<Uuid>,
    definition: &TaskDefinition,
    depends_on: Vec<Uuid>,
    limits: TaskLimits,
    task: &mut Task,
    starter: Uuid,
    now: Moment,
    started: Result<(), JobError>,
)
    requires
        call_ensures(Task::new, (id, worker, creator, definition, depends_on), *task),
        definition@.rejection(limits) is None,
        call_ensures(Task::start_at, (task, starter, now), started),
        started is Ok,
    ensures
        final(task)@.lifetime_deadline_at == Some(now@ + definition@.max_lifetime),
        final(task)@.deadline_at == Some(now@ + definition@.timeout),
        final(task)@.attempt == 1,
{
}

/// A task that is rebuilt has every field it is rebuilt from, and is claimed by no execution.
pub proof fn law_restored_task_is_the_stored_one(fields: RestoredTask, task: Task)
    requires
        call_ensures(Task::restore, (fields,), task),
    ensures
        task@.id == fields.id && task@.code == fields.code@ && task@.status == fields.status,
        task@.processing_by_worker == fields.processing_by_worker,
        task@.created_by_worker == fields.created_by_worker,
        task@.created_by_task is None,
        task@.timeout == fields.timeout@ && task@.max_lifetime == fields.max_lifetime@,
        fields.started_at matches Some(moment) ==> task@.started_at == Some(moment@),
        fields.started_at is None ==> task@.started_at is None,
        fields.completed_at matches Some(moment) ==> task@.completed_at == Some(moment@),
        fields.completed_at is None ==> task@.completed_at is None,
        fields.deadline_at matches Some(moment) ==> task@.deadline_at == Some(moment@),
        fields.deadline_at is None ==> task@.deadline_at is None,
        fields.lifetime_deadline_at matches Some(moment) ==> task@.lifetime_deadline_at == Some(
            moment@,
        ),
        fields.lifetime_deadline_at is None ==> task@.lifetime_deadline_at is None,
        task@.attempt == fields.attempt && task@.max_attempts == fields.max_attempts,
        task@.input == fields.input@ && task@.output == fields.output@,
        task@.resolution_reason == fields.resolution_reason@ && task@.retry == fields.retry,
        task@.tolerance == fields.tolerance && task@.depends_on == fields.depends_on@,
{
}

// Availability

/// A task may be started exactly where it is ready; where it failed, may be repeated, and has an attempt
/// and lifetime left; or where its owner's deadline has passed and its lifetime has not. It is to be
/// failed exactly where it runs past its lifetime.
pub proof fn law_task_is_available_exactly_when_it_can_run(
    task: &Task,
    now: Moment,
    availability: TaskAvailability,
)
    requires
        call_ensures(Task::check_availability_at, (task, now), availability),
    ensures
        availability == TaskAvailability::Pickable <==> can_run(task@, now@),
        availability == TaskAvailability::ExpiredPastLifetime <==> task@.status
            == TaskStatus::Started && is_past(task@.lifetime_deadline_at, now@),
{
}

/// The same holds of whether a task can be picked up.
pub proof fn law_task_is_picked_up_exactly_when_it_can_run(task: &Task, now: Moment, pickable: bool)
    requires
        call_ensures(Task::can_be_picked_up_at, (task, now), pickable),
    ensures
        pickable <==> can_run(task@, now@),
{
}

/// A failure is for good exactly where it was declared final or a limit is spent, and a limit counts as
/// spent only past its moment.
pub proof fn law_failure_is_final_exactly_when_a_limit_is_spent(
    task: &Task,
    now: Moment,
    terminal: bool,
    expired: bool,
    outlived: bool,
)
    ensures
        call_ensures(Task::is_terminally_failed_at, (task, now), terminal) ==> (terminal <==> task@.status
            == TaskStatus::Failed && (task@.retry == TaskRetry::Never || task@.attempt
            >= task@.max_attempts || is_past(task@.lifetime_deadline_at, now@))),
        call_ensures(Task::is_expired_at, (task, now), expired) ==> expired == is_past(
            task@.deadline_at,
            now@,
        ),
        call_ensures(Task::is_lifetime_expired_at, (task, now), outlived) ==> outlived == is_past(
            task@.lifetime_deadline_at,
            now@,
        ),
{
}

/// A task is resolved exactly where it completed, failed or was skipped, and as what it ended.
pub proof fn law_resolution_names_the_end(
    task: &Task,
    resolution: Option<TaskResolution>,
    resolved: bool,
)
    ensures
        call_ensures(Task::resolution, (task,), resolution) ==> {
            &&& resolution == Some(TaskResolution::Completed) <==> task@.status
                == TaskStatus::Completed
            &&& resolution == Some(TaskResolution::Failed) <==> task@.status == TaskStatus::Failed
            &&& resolution == Some(TaskResolution::Skipped) <==> task@.status is Skipped
        },
        call_ensures(Task::is_resolved, (task,), resolved) ==> (resolved <==> task@.status
            == TaskStatus::Completed || task@.status == TaskStatus::Failed || task@.status is Skipped),
{
}

// Starting

/// A start is accepted exactly where the task can run and the moments it places can be dated. A task
/// that cannot run and that another worker holds is reported as that worker's; anything else in words.
/// A refused start changes nothing.
pub proof fn law_start_is_accepted_exactly_when_the_task_can_run(
    task: &mut Task,
    worker: Uuid,
    now: Moment,
    started: Result<(), JobError>,
)
    requires
        call_ensures(Task::start_at, (task, worker, now), started),
    ensures
        ({
            let before = old(task)@;
            let can_run = can_run(before, now@);
            let is_datable = is_dated(now@ + before.timeout) && (before.lifetime_deadline_at is Some
                || is_dated(now@ + before.max_lifetime));
            &&& started is Ok <==> can_run && is_datable
            &&& started matches Err(e) ==> *final(task) == *old(task) && (e@ is Other || e@
                == JobErrorView::TaskWorkerMismatch)
            &&& (started matches Err(e) && e@ == JobErrorView::TaskWorkerMismatch) <==> !can_run
                && before.processing_by_worker is Some && before.processing_by_worker != Some(worker)
        }),
{
}

/// Every accepted start hands the task to the worker until the smaller of one timeout from now and the
/// end of its lifetime, whatever state it was started from; that end is the one an earlier start placed,
/// or lies one maximum lifetime ahead. It spends an attempt unless it takes a running task over.
pub proof fn law_every_start_places_the_deadline(
    task: &mut Task,
    worker: Uuid,
    now: Moment,
    started: Result<(), JobError>,
)
    requires
        call_ensures(Task::start_at, (task, worker, now), started),
        started is Ok,
    ensures
        is_start(old(task)@, final(task)@, worker, now@),
{
}

/// A task that failed with attempts and lifetime to spare and is started again gets a whole timeout
/// again, as far as its lifetime reaches: how long the attempt before it had left plays no part.
pub proof fn law_retry_gets_a_whole_timeout(
    task: &mut Task,
    worker: Uuid,
    now: Moment,
    started: Result<(), JobError>,
    again: &mut Task,
    other: Uuid,
    later: Moment,
    restarted: Result<(), JobError>,
)
    requires
        call_ensures(Task::start_at, (task, worker, now), started),
        started is Ok,
        again@ == (TaskView { status: TaskStatus::Failed, ..final(task)@ }),
        call_ensures(Task::start_at, (again, other, later), restarted),
        restarted is Ok,
        later@ + old(task)@.timeout <= final(task)@.lifetime_deadline_at->Some_0,
    ensures
        final(again)@.deadline_at == Some(later@ + old(task)@.timeout),
        final(again)@.lifetime_deadline_at == final(task)@.lifetime_deadline_at,
        final(again)@.attempt == final(task)@.attempt + 1,
{
}

// Ending

/// A result is stored exactly while the task runs within its lifetime, and nothing but the result and
/// the end of the task changes.
pub proof fn law_result_is_stored_exactly_within_the_lifetime(
    task: &mut Task,
    output: Vec<u8>,
    now: Moment,
    completed: Result<(), JobError>,
)
    requires
        call_ensures(Task::complete_at, (task, output, now), completed),
    ensures
        completed is Ok <==> old(task)@.status == TaskStatus::Started && !is_past(
            old(task)@.lifetime_deadline_at,
            now@,
        ),
        completed matches Err(e) ==> e@ is Other && *final(task) == *old(task),
        completed is Ok ==> is_result(old(task)@, final(task)@, output@, now@),
{
}

/// A task is skipped exactly where it is blocked or runs within its lifetime, for the cause and with the
/// reason given, and nothing else of it changes.
pub proof fn law_skip_is_accepted_exactly_before_the_end(
    task: &mut Task,
    reason: &str,
    cause: SkipCause,
    now: Moment,
    skipped: Result<(), JobError>,
)
    requires
        call_ensures(Task::skip_at, (task, reason, cause, now), skipped),
    ensures
        skipped is Ok <==> old(task)@.status == TaskStatus::Blocked || (old(task)@.status
            == TaskStatus::Started && !is_past(old(task)@.lifetime_deadline_at, now@)),
        skipped matches Err(e) ==> e@ is Other && *final(task) == *old(task),
        skipped is Ok ==> {
            &&& final(task)@.status == TaskStatus::Skipped(cause)
            &&& final(task)@.resolution_reason == reason@
            &&& final(task)@.completed_at == Some(now@)
            &&& final(task)@ == (TaskView {
                status: final(task)@.status,
                resolution_reason: final(task)@.resolution_reason,
                completed_at: final(task)@.completed_at,
                ..old(task)@
            })
        },
{
}

/// A running task can be failed at any moment, past its lifetime too, and no other can; the refusal and
/// whether it may be repeated are kept as they were given, and no attempt or moment is touched.
pub proof fn law_failure_is_recorded_as_given(
    task: &mut Task,
    reason: &str,
    retry: TaskRetry,
    now: Moment,
    failed: Result<(), JobError>,
)
    requires
        call_ensures(Task::fail_at, (task, reason, retry, now), failed),
    ensures
        failed is Ok <==> old(task)@.status == TaskStatus::Started,
        failed matches Err(e) ==> e@ is Other && *final(task) == *old(task),
        failed is Ok ==> is_refusal(old(task)@, final(task)@, reason@, retry, now@),
{
}

/// Unblocking makes a blocked task ready, and changes nothing else of it and nothing of any other task.
pub proof fn law_unblocking_touches_blocked_tasks_alone(task: &mut Task, unit: ())
    requires
        call_ensures(Task::unblock, (task,), unit),
    ensures
        old(task)@.status == TaskStatus::Blocked ==> final(task)@.status == TaskStatus::Todo,
        old(task)@.status != TaskStatus::Blocked ==> final(task)@.status == old(task)@.status,
        final(task)@ == (TaskView { status: final(task)@.status, ..old(task)@ }),
{
}

/// A start, a result, a skip or a failure at the moment the clock gives is that of some moment.
pub proof fn law_calls_read_the_clock_once(
    task: &mut Task,
    worker: Uuid,
    output: Vec<u8>,
    reason: &str,
    cause: SkipCause,
    retry: TaskRetry,
    done: Result<(), JobError>,
)
    ensures
        call_ensures(Task::start, (task, worker), done) ==> exists|now: int|
            #![trigger is_dated(now)]
            is_dated(now) && if done is Ok {
                old(task)@.start_refusal(worker, now) is None && final(task)@ == old(
                    task,
                )@.started(worker, now)
            } else {
                old(task)@.start_refusal(worker, now) is Some && *final(task) == *old(task)
            },
        call_ensures(Task::complete, (task, output), done) ==> exists|now: int|
            #![trigger is_dated(now)]
            is_dated(now) && if done is Ok {
                old(task)@.completion_refusal(now) is None && final(task)@ == old(
                    task,
                )@.completed(output@, now)
            } else {
                old(task)@.completion_refusal(now) is Some && *final(task) == *old(task)
            },
        call_ensures(Task::skip, (task, reason, cause), done) ==> exists|now: int|
            #![trigger is_dated(now)]
            is_dated(now) && if done is Ok {
                old(task)@.skip_refusal(now) is None && final(task)@ == old(task)@.skipped(
                    reason@,
                    cause,
                    now,
                )
            } else {
                old(task)@.skip_refusal(now) is Some && *final(task) == *old(task)
            },
        call_ensures(Task::fail, (task, reason, retry), done) ==> if done is Ok {
            exists|now: int|
                #![trigger is_dated(now)]
                is_dated(now) && final(task)@ == old(task)@.failed(reason@, retry, now)
        } else {
            old(task)@.status != TaskStatus::Started && *final(task) == *old(task)
        },
{
}

// Dependencies

/// A dependency no longer holds a task back exactly where it completed, failed for good with the task
/// tolerating that, or was skipped with the task tolerating that. It puts the task out of reach of
/// running exactly where it failed for good or was skipped and the task does not tolerate it, and the
/// task hands a failure down exactly where there was one.
pub proof fn law_dependency_is_judged_by_what_is_tolerated(
    task: &Task,
    dependency: &Task,
    now: Moment,
    verdict: DependencyVerdict,
)
    requires
        call_ensures(Task::judge_dependency, (task, dependency, now), verdict),
    ensures
        ({
            let failed_for_good = failed_for_good(dependency@, now@);
            &&& verdict == DependencyVerdict::Unblocked <==> {
                ||| dependency@.status == TaskStatus::Completed
                ||| failed_for_good && task@.tolerance.allows_failed
                ||| dependency@.status is Skipped && task@.tolerance.allows_skipped
            }
            &&& verdict == DependencyVerdict::Skipped(SkipCause::FailedDependency) <==> {
                ||| failed_for_good && !task@.tolerance.allows_failed
                ||| dependency@.status == TaskStatus::Skipped(SkipCause::FailedDependency)
                    && !task@.tolerance.allows_skipped
            }
            &&& verdict == DependencyVerdict::Skipped(SkipCause::SkippedDependency) <==> (
            dependency@.status == TaskStatus::Skipped(SkipCause::ExecutorDecision)
                || dependency@.status == TaskStatus::Skipped(SkipCause::SkippedDependency))
                && !task@.tolerance.allows_skipped
            &&& verdict != DependencyVerdict::Skipped(SkipCause::ExecutorDecision)
        }),
{
}

/// A task answers for the failure of another exactly where it waited for it, tolerates its failure, and
/// completed or was skipped by its own executor.
pub proof fn law_only_a_tolerant_resolved_dependent_answers(
    task: &Task,
    dependency: &Uuid,
    answers: bool,
)
    requires
        call_ensures(Task::answers_for, (task, dependency), answers),
    ensures
        answers <==> {
            &&& exists|k: int|
                0 <= k < task@.depends_on.len() && #[trigger] task@.depends_on[k] == *dependency
            &&& task@.tolerance.allows_failed
            &&& task@.status == TaskStatus::Completed || task@.status == TaskStatus::Skipped(
                SkipCause::ExecutorDecision,
            )
        },
{
}

} // verus!
