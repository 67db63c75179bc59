//! What people are told: states, errors and identifiers in words.

use vstd::arithmetic::power::pow;
use vstd::prelude::*;

use crate::builder::{build_registry, JobBuilder};
use crate::code::{JobCode, TaskCode};
use crate::definition::{
    bind_initial, idle_tolerance_refusal, JobDefinition, JobDefinitionId, JobDefinitionView,
    TaskLimits,
};
use crate::description_laws::{is_complete, lemma_refused_draft};
use crate::error::{Error, ErrorView, InternalError, InternalErrorView, JobError, JobErrorView};
use crate::execution::{check_task_resolution, failure_text, ExecutionEnd, SaveReason};
use crate::executors::{ExecutorId, TaskExecutors};
use crate::job::{lemma_given_up_fit, Job};
use crate::job_handle::JobHandleState;
use crate::job_laws::is_over;
use crate::job_view::{is_walk, resolved_references, task_entries, task_summary, JobView, TaskPickup};
use crate::manager::{stopped_pool_error, FinishedIterations, JobsManagerConfig};
use crate::outcome::TaskOutcome;
use crate::poll::WorkerConfig;
use crate::pool::{JobsManagerBuilder, PoolDraft};
use crate::registry::{registered, JobRegistry};
use crate::schedule_laws::a_year;
use crate::status::{JobStatus, SkipCause, TaskResolution, TaskRetry, TaskStatus};
use crate::task::{Task, TaskDefinition, TaskDefinitionView, TaskRef, TaskRefKind, TaskView, Uuid};
use crate::task_laws::can_run;
use crate::text::{decimal, digits, signed_text, unsigned_text, uuid_text};
use crate::time::{is_delta, moment_debug_text, whole_millis, Duration, Moment};

verus! {

// Numbers and identifiers

/// The number a decimal digit stands for.
pub open spec fn digit_value(digit: char) -> int {
    digit as int - '0' as int
}

/// The number decimal digits stand for.
pub open spec fn number(digits: Seq<char>) -> int
    decreases digits.len(),
{
    if digits.len() == 0 {
        0
    } else {
        number(digits.drop_last()) * 10 + digit_value(digits.last())
    }
}

/// Digits read back as the number they were written for, and start with a zero only where that is all.
pub proof fn law_numbers_are_read_back(value: nat)
    ensures
        number(digits(value)) == value,
        digits(value).len() > 0,
        forall|i: int|
            0 <= i < digits(value).len() ==> '0' <= #[trigger] digits(value)[i] <= '9',
        value > 0 ==> digits(value)[0] != '0',
    decreases value,
{
    if value < 10 {
        assert(digits(value).drop_last() =~= Seq::empty());
        assert(number(Seq::<char>::empty()) == 0);
    } else {
        law_numbers_are_read_back(value / 10);
        assert(digits(value).drop_last() =~= digits(value / 10));
        assert forall|i: int| 0 <= i < digits(value).len() implies '0' <= #[trigger] digits(
            value,
        )[i] <= '9' by {
            if i < digits(value).len() - 1 {
                assert(digits(value)[i] == digits(value / 10)[i]);
            }
        }
        assert(digits(value)[0] == digits(value / 10)[0]);
    }
}

/// Numbers are written in digits, behind a minus sign where they are negative.
pub proof fn law_numbers_are_written_in_digits(count: u128, value: i64, text: String)
    ensures
        call_ensures(unsigned_text, (count,), text) ==> number(text@) == count && text@.len() > 0,
        call_ensures(signed_text, (value,), text) && value >= 0 ==> number(text@) == value,
        call_ensures(signed_text, (value,), text) && value < 0 ==> text@.len() > 1 && text@[0] == '-'
            && number(text@.subrange(1, text@.len() as int)) == -value,
{
    law_numbers_are_read_back(count as nat);
    if value >= 0 {
        law_numbers_are_read_back(value as nat);
    } else {
        let magnitude = (-value) as nat;
        law_numbers_are_read_back(magnitude);
        reveal_strlit("-");
        if call_ensures(signed_text, (value,), text) {
            assert(text@.subrange(1, text@.len() as int) =~= digits(magnitude));
        }
    }
}

/// The number a lower-case hexadecimal digit stands for.
pub open spec fn hex_value(digit: char) -> int {
    if digit >= 'a' {
        digit as int - 'a' as int + 10
    } else {
        digit as int - '0' as int
    }
}

/// An identifier is written as thirty-two hexadecimal digits, the highest first, in groups of eight, four,
/// four, four and twelve.
pub proof fn law_identifiers_are_written_in_groups(id: u128, k: int)
    ensures
        uuid_text(id).len() == 36,
        uuid_text(id)[8] == '-' && uuid_text(id)[13] == '-' && uuid_text(id)[18] == '-'
            && uuid_text(id)[23] == '-',
        0 <= k < 32 ==> hex_value(uuid_text(id)[k + (if k < 8 {
            0int
        } else if k < 12 {
            1
        } else if k < 16 {
            2
        } else if k < 20 {
            3
        } else {
            4
        })]) == id as int / pow(16, (31 - k) as nat) % 16,
{
    if 0 <= k < 32 {
        let digit = id as int / pow(16, (31 - k) as nat) % 16;
        assert(0 <= digit < 16);
    }
}

// States

/// States, causes and resolutions have their names.
pub proof fn law_states_have_their_names(
    job: &JobStatus,
    task: &TaskStatus,
    cause: SkipCause,
    resolution: TaskResolution,
    save: SaveReason,
    label: &'static str,
    text: String,
)
    ensures
        call_ensures(JobStatus::as_str, (job,), label) ==> match *job {
            JobStatus::Started => label@ == "started"@,
            JobStatus::Running => label@ == "running"@,
            JobStatus::Completed => label@ == "completed"@,
            JobStatus::Failed => label@ == "failed"@,
        },
        call_ensures(SkipCause::as_str, (cause,), label) ==> match cause {
            SkipCause::ExecutorDecision => label@ == "executor decision"@,
            SkipCause::FailedDependency => label@ == "failed dependency"@,
            SkipCause::SkippedDependency => label@ == "skipped dependency"@,
        },
        call_ensures(TaskResolution::as_str, (resolution,), label) ==> match resolution {
            TaskResolution::Completed => label@ == "completed"@,
            TaskResolution::Failed => label@ == "failed"@,
            TaskResolution::Skipped => label@ == "skipped"@,
        },
        call_ensures(SaveReason::as_str, (save,), label) ==> match save {
            SaveReason::FailedTask => label@ == "save_failed_task"@,
            SaveReason::CompletedTask => label@ == "save_completed_task"@,
        },
        call_ensures(TaskStatus::to_text, (task,), text) ==> match *task {
            TaskStatus::Todo => text@ == "todo"@,
            TaskStatus::Blocked => text@ == "blocked"@,
            TaskStatus::Started => text@ == "started"@,
            TaskStatus::Completed => text@ == "completed"@,
            TaskStatus::Failed => text@ == "failed"@,
            TaskStatus::Skipped(SkipCause::ExecutorDecision) => text@ == "skipped ("@
                + "executor decision"@ + ")"@,
            TaskStatus::Skipped(SkipCause::FailedDependency) => text@ == "skipped ("@
                + "failed dependency"@ + ")"@,
            TaskStatus::Skipped(SkipCause::SkippedDependency) => text@ == "skipped ("@
                + "skipped dependency"@ + ")"@,
        },
        call_ensures(TaskStatus::to_name, (task,), label) ==> label@ == name_of(*task),
{
}

/// The state by its name in code.
pub open spec fn name_of(status: TaskStatus) -> Seq<char> {
    match status {
        TaskStatus::Todo => "Todo"@,
        TaskStatus::Blocked => "Blocked"@,
        TaskStatus::Started => "Started"@,
        TaskStatus::Completed => "Completed"@,
        TaskStatus::Failed => "Failed"@,
        TaskStatus::Skipped(SkipCause::ExecutorDecision) => "Skipped(ExecutorDecision)"@,
        TaskStatus::Skipped(SkipCause::FailedDependency) => "Skipped(FailedDependency)"@,
        TaskStatus::Skipped(SkipCause::SkippedDependency) => "Skipped(SkippedDependency)"@,
    }
}

/// Errors without words of their own are put in these.
pub proof fn law_errors_are_put_in_words(
    job: &JobError,
    error: &Error,
    internal: &InternalError,
    text: String,
)
    ensures
        call_ensures(JobError::message, (job,), text) ==> match job@ {
            JobErrorView::TaskNotFound => text@ == "task not found"@,
            JobErrorView::TaskWorkerMismatch => text@ == "task worker mismatch"@,
            JobErrorView::InvalidStatusTransition { from, to } => text@
                == "invalid job status transition from "@ + from.label() + " to "@ + to.label(),
            JobErrorView::Other(_) => true,
        },
        call_ensures(Error::message, (error,), text) && error@ is Cancelled ==> text@
            == "operation cancelled"@,
        call_ensures(InternalError::message, (internal,), text) ==> match internal@ {
            InternalErrorView::Cancelled => text@ == "operation cancelled"@,
            InternalErrorView::MaxAttemptsReached(cause) => text@ == "max retry attempts reached: "@
                + cause.text(),
            InternalErrorView::Job(JobErrorView::TaskNotFound) => text@ == "task not found"@,
            InternalErrorView::Job(JobErrorView::TaskWorkerMismatch) => text@
                == "task worker mismatch"@,
            _ => true,
        },
{
}

// Tasks

/// What a refused start says: the task, its state and its deadline, or the spans that name no date.
pub proof fn law_refused_start_names_the_reason(
    task: &mut Task,
    worker: Uuid,
    now: Moment,
    started: Result<(), JobError>,
)
    requires
        call_ensures(Task::start_at, (task, worker, now), started),
        started is Err,
        started->Err_0@ is Other,
    ensures
        ({
            let before = old(task)@;
            let text = started->Err_0@->Other_0;
            let deadline = match before.deadline_at {
                Some(moment) => "Some("@ + moment_debug_text(moment) + ")"@,
                None => "None"@,
            };
            if can_run(before, now@) {
                text == "cannot start task (id: "@ + uuid_text(before.id) + "; code: "@ + before.code
                    + "): its timeout of "@ + decimal(whole_millis(before.timeout))
                    + " ms or its maximum lifetime of "@ + decimal(
                    whole_millis(before.max_lifetime),
                ) + " ms falls outside the range of dates"@
            } else {
                text == "cannot start task (id: "@ + uuid_text(before.id) + "; code: "@ + before.code
                    + "; status: "@ + name_of(before.status) + "; deadline at: "@ + deadline + ")"@
            }
        }),
{
}

/// What is said where a task in this state cannot have done to it what was asked.
pub open spec fn state_report(task: TaskView, action: Seq<char>) -> Seq<char> {
    "cannot "@ + action + " task (id: "@ + uuid_text(task.id) + "; code: "@ + task.code
        + ") with status "@ + name_of(task.status)
}

/// What is said where a task outlived its lifetime before what was asked of it.
pub open spec fn late_report(task: TaskView, action: Seq<char>) -> Seq<char> {
    "cannot "@ + action + " task (id: "@ + uuid_text(task.id) + "; code: "@ + task.code
        + "): it outlived its maximum lifetime of "@ + decimal(whole_millis(task.max_lifetime))
        + " ms"@
}

/// A refused result, skip or failure says what was refused, and for the state or for the lifetime.
pub proof fn law_refused_end_names_the_reason(
    task: &mut Task,
    output: Vec<u8>,
    reason: &str,
    cause: SkipCause,
    retry: TaskRetry,
    now: Moment,
    done: Result<(), JobError>,
)
    requires
        done is Err,
    ensures
        ({
            let before = old(task)@;
            let said = done->Err_0@;
            &&& call_ensures(Task::complete_at, (task, output, now), done) ==> said
                == JobErrorView::Other(
                if before.status != TaskStatus::Started {
                    state_report(before, "complete"@)
                } else {
                    late_report(before, "complete"@)
                },
            )
            &&& call_ensures(Task::skip_at, (task, reason, cause, now), done) ==> said
                == JobErrorView::Other(
                if before.status != TaskStatus::Started {
                    state_report(before, "skip"@)
                } else {
                    late_report(before, "skip"@)
                },
            )
            &&& call_ensures(Task::fail_at, (task, reason, retry, now), done) ==> said
                == JobErrorView::Other(state_report(before, "fail"@))
        }),
{
}

/// A definition that does not pass is told what is wrong with it.
pub proof fn law_refused_definition_is_told_why(
    definition: &TaskDefinition,
    limits: TaskLimits,
    verdict: Result<(), JobError>,
)
    requires
        call_ensures(TaskDefinition::validate, (definition, limits), verdict),
        verdict is Err,
    ensures
        ({
            let text = verdict->Err_0@->Other_0;
            let it = definition@;
            ||| text == "task timeout must be positive"@ && it.timeout == 0
            ||| text == "task timeout is too large"@ && !is_delta(it.timeout)
            ||| text == "task max lifetime must be positive"@ && it.max_lifetime == 0
            ||| text == "task max lifetime is too large"@ && !is_delta(it.max_lifetime)
            ||| text == "task max lifetime must not be below the task timeout"@ && it.max_lifetime
                < it.timeout
            ||| text == "task max attempts must be positive"@ && it.max_attempts == 0
            ||| text == "task input size "@ + decimal(it.input.len() as int) + " exceeds limit "@
                + decimal(limits.max_input_bytes as int) && it.input.len() > limits.max_input_bytes
        }),
{
}

// Jobs

/// A task that cannot be added is told why: for itself, for its creator, or for what it waits for.
pub proof fn law_refused_addition_is_told_why(
    job: &mut Job,
    definition: &TaskDefinition,
    worker: Uuid,
    creator: Option<Uuid>,
    id: Uuid,
    added: Result<Uuid, JobError>,
)
    requires
        call_ensures(Job::add_task_with_id, (job, definition, worker, creator, id), added),
        definition@.rejection(old(job)@.task_limits) is None,
        added is Err,
    ensures
        ({
            let before = old(job)@;
            let said = added->Err_0@;
            let idle = definition@.depends_on.len() == 0 && (definition@.tolerance.allows_failed
                || definition@.tolerance.allows_skipped);
            let lost = creator is Some && !before.tasks.contains_key(creator->Some_0);
            let failed = creator is Some && before.tasks[creator->Some_0].status
                == TaskStatus::Failed;
            &&& idle ==> said == JobErrorView::Other(
                "task tolerates unreachable dependencies but depends on none"@,
            )
            &&& !idle && lost ==> said == JobErrorView::TaskNotFound
            &&& !idle && !lost && failed ==> said == JobErrorView::Other(
                "task '"@ + uuid_text(creator->Some_0)
                    + "' cannot create a task: its execution failed and what it created was rolled back"@,
            )
            &&& !idle && !lost && !failed ==> exists|k: int|
                0 <= k < definition@.depends_on.len() && is_reference_report(
                    before,
                    #[trigger] definition@.depends_on[k],
                    said,
                )
        }),
{
    lemma_reference_refusal(old(job)@, definition@.depends_on);
}

/// Whether this is what is said of a reference a task created at runtime cannot wait for.
pub open spec fn is_reference_report(
    job: JobView,
    reference: TaskRef,
    said: JobErrorView,
) -> bool {
    match reference@ {
        TaskRefKind::Initial { job_definition, position } => said == JobErrorView::Other(
            "task created at runtime cannot depend on initial task position "@ + decimal(
                position as int,
            ),
        ),
        TaskRefKind::Created(id) => !job.tasks.contains_key(id) && said == JobErrorView::Other(
            "dependency task '"@ + uuid_text(id) + "' not found"@,
        ),
    }
}

proof fn lemma_reference_refusal(job: JobView, references: Seq<TaskRef>)
    ensures
        job.reference_refusal(references) matches Some(message) ==> exists|k: int|
            0 <= k < references.len() && is_reference_report(
                job,
                #[trigger] references[k],
                JobErrorView::Other(message),
            ),
    decreases references.len(),
{
    if references.len() > 0 {
        let rest = references.drop_last();
        lemma_reference_refusal(job, rest);
        if job.reference_refusal(rest) is Some {
            let message = job.reference_refusal(rest)->Some_0;
            let k = choose|k: int|
                0 <= k < rest.len() && is_reference_report(
                    job,
                    #[trigger] rest[k],
                    JobErrorView::Other(message),
                );
            assert(references[k] == rest[k]);
        } else if job.reference_refusal(references) is Some {
            assert(references[references.len() - 1] == references.last());
        }
    }
}

/// A result that is too large is told how large it may be.
pub proof fn law_oversized_result_is_told_its_limit(
    job: &mut Job,
    id: &Uuid,
    output: Vec<u8>,
    now: Moment,
    completed: Result<(), JobError>,
)
    requires
        call_ensures(Job::complete_task_at, (job, id, output, now), completed),
        output@.len() > old(job)@.task_limits.max_output_bytes,
    ensures
        completed is Err,
        completed->Err_0@ == JobErrorView::Other(
            "task output size "@ + decimal(output@.len() as int) + " exceeds limit "@ + decimal(
                old(job)@.task_limits.max_output_bytes as int,
            ),
        ),
{
}

/// A search for work that fails says in which job, and of what.
pub proof fn law_failed_search_names_the_job(
    job: &mut Job,
    worker: &Uuid,
    order: &Vec<Uuid>,
    now: Moment,
    picked: Result<TaskPickup, JobError>,
)
    requires
        call_ensures(Job::pick_in_order, (job, worker, order, now), picked),
        picked is Err,
    ensures
        is_over(old(job)@) ==> picked->Err_0@ == (JobErrorView::InvalidStatusTransition {
            from: old(job)@.status,
            to: JobStatus::Running,
        }),
        !is_over(old(job)@) && final(job)@.all_tasks_completed() ==> picked->Err_0@
            == JobErrorView::Other(
            "wrong running job "@ + old(job)@.code + " state - all tasks complete"@,
        ),
        !is_over(old(job)@) && !final(job)@.all_tasks_completed() ==> picked->Err_0@
            == JobErrorView::Other(
            "job "@ + old(job)@.code + " deadlock: blocked tasks with unmet dependencies"@,
        ),
{
    lemma_given_up_fit(
        old(job)@.working(*worker, now@).lifetimes_ended(order@, now@),
        old(job)@.tasks.dom().len(),
        now@,
    );
    let open = if old(job)@.status == JobStatus::Running {
        old(job)@
    } else {
        old(job)@.working(*worker, now@)
    };
    let end = open.walk_end(order@, now@, 0);
    let ended = open.lifetimes_ended(order@.take(end), now@);
    lemma_given_up_fit(ended, ended.tasks.dom().len(), now@);
}

/// A merge that fails says of which job, and why.
pub proof fn law_failed_merge_names_the_job(
    job: &mut Job,
    current: &Job,
    worker: &Uuid,
    id: &Uuid,
    merged: Result<(), JobError>,
)
    requires
        merged is Err,
        merged->Err_0@ is Other,
    ensures
        ({
            let stored = old(job)@;
            let text = merged->Err_0@->Other_0;
            let states = "invalid job status transition from "@ + stored.status.label() + " to "@
                + current@.status.label();
            &&& call_ensures(Job::merge_with_picked_task, (job, current, worker, id), merged)
                ==> text == if stored.id != current@.id {
                "merge picked task for job '"@ + stored.code + "' failed - IDs are different"@
            } else if current@.tasks[*id].status != TaskStatus::Started {
                "merge picked task for job '"@ + stored.code
                    + "' failed - worker task is not started by worker '"@ + uuid_text(*worker)
                    + "'"@
            } else {
                "merge picked task for job '"@ + stored.code + "' status failed: "@ + states
            }
            &&& call_ensures(Job::merge_with_processed_task, (job, current, worker, id), merged)
                ==> text == if stored.id != current@.id {
                "merge job '"@ + stored.code + "' failed - IDs are different"@
            } else {
                "merge job '"@ + stored.code + "' status failed: "@ + states
            }
        }),
{
}

/// An execution that fails its task for what its executor returned says so in these words.
pub proof fn law_failed_execution_is_told_why(job: JobView, id: Uuid, end: ExecutionEnd, now: int)
    ensures
        ({
            let text = failure_text(job, id, end, now);
            &&& end == ExecutionEnd::Returned(TaskOutcome::Cancelled) ==> text == Some(
                "executor returned Cancelled without a cancellation of its execution: return the outcome of the work, or select on the token and return Cancelled once it fires"@,
            )
            &&& end == ExecutionEnd::Returned(TaskOutcome::Deferred) && text is Some
                && job.tasks.contains_key(id) ==> text == Some(
                "executor returned Deferred without resolving task '"@ + uuid_text(id)
                    + "': complete or fail it through the job handle, or return the outcome instead"@,
            )
            &&& (end matches ExecutionEnd::Returned(TaskOutcome::Completed(output)))
                && text is Some && job.tasks.contains_key(id) ==> ({
                let output = end->Returned_0->Completed_0;
                text == Some(
                    if output@.len() > job.task_limits.max_output_bytes {
                        "task output size "@ + decimal(output@.len() as int) + " exceeds limit "@
                            + decimal(job.task_limits.max_output_bytes as int)
                    } else if job.tasks[id].status != TaskStatus::Started {
                        state_report(job.tasks[id], "complete"@)
                    } else {
                        late_report(job.tasks[id], "complete"@)
                    },
                )
            })
        }),
{
}

/// A deferred task that is not resolved is reported by its identifier.
pub proof fn law_unresolved_task_is_named(job: &Job, id: &Uuid, checked: Result<(), InternalError>)
    requires
        call_ensures(check_task_resolution, (job, id), checked),
        checked is Err,
        job@.tasks.contains_key(*id),
    ensures
        checked->Err_0@ == InternalErrorView::Other(
            "executor returned Deferred without resolving task '"@ + uuid_text(*id)
                + "': complete or fail it through the job handle, or return the outcome instead"@,
        ),
{
}

/// A job's summary tells of its tasks in some order, of the first four where there are more than three.
pub proof fn law_summary_tells_of_the_first_tasks(job: &Job, summary: String)
    requires
        call_ensures(Job::tasks_as_string, (job,), summary),
    ensures
        exists|order: Seq<Uuid>|
            #[trigger] is_walk(order, job@.tasks) && summary@ == if order.len() <= 3 {
                task_entries(job@.tasks, order)
            } else {
                task_entries(job@.tasks, order.subrange(0, 4)) + "..."@
            },
{
    let order = choose|order: Seq<Uuid>|
        is_walk(order, job@.tasks) && summary@ == #[trigger] task_summary(
            job@.tasks,
            order,
        );
    assert(is_walk(order, job@.tasks));
    if order.len() > 3 {
        assert(order.take(4) =~= order.subrange(0, 4));
    }
}

/// Each entry of a summary tells of one task, behind those before it.
pub proof fn law_summary_tells_of_each_task(tasks: Map<Uuid, TaskView>, order: Seq<Uuid>, id: Uuid)
    ensures
        task_entries(tasks, Seq::empty()) == Seq::<char>::empty(),
        task_entries(tasks, order.push(id)) == task_entries(tasks, order) + "id: "@ + uuid_text(id)
            + "; code: "@ + tasks[id].code + "; status: "@ + tasks[id].status.label() + "; "@,
{
    assert(order.push(id).drop_last() =~= order);
}

/// An initial task that waits for one there is not is told which.
pub proof fn law_unplannable_reference_is_named(references: Seq<TaskRef>, ids: Seq<Uuid>)
    ensures
        resolved_references(references, ids) matches Err(message) ==> exists|k: int|
            0 <= k < references.len() && match (#[trigger] references[k])@ {
                TaskRefKind::Initial { job_definition, position } => position >= ids.len()
                    && message == "dependency reference "@ + decimal(position as int)
                    + " is out of range"@,
                TaskRefKind::Created(id) => message == "initial task cannot depend on task '"@
                    + uuid_text(id) + "' created at runtime"@,
            },
    decreases references.len(),
{
    if references.len() > 0 {
        let rest = references.drop_last();
        law_unplannable_reference_is_named(rest, ids);
        if resolved_references(rest, ids) is Err {
            let message = resolved_references(rest, ids)->Err_0;
            let k = choose|k: int|
                0 <= k < rest.len() && match (#[trigger] rest[k])@ {
                    TaskRefKind::Initial { job_definition, position } => position >= ids.len()
                        && message == "dependency reference "@ + decimal(position as int)
                        + " is out of range"@,
                    TaskRefKind::Created(id) => message == "initial task cannot depend on task '"@
                        + uuid_text(id) + "' created at runtime"@,
                };
            assert(references[k] == rest[k]);
        } else if resolved_references(references, ids) is Err {
            assert(references[references.len() - 1] == references.last());
        }
    }
}

// Descriptions

/// A reference that names no task of a description is told why.
pub proof fn law_unknown_reference_is_told_why(
    id: JobDefinitionId,
    job: &JobCode,
    reference: TaskRef,
    count: usize,
    resolved: Result<usize, Error>,
)
    requires
        call_ensures(JobDefinition::resolve_initial_position, (id, job, reference, count), resolved),
        resolved is Err,
    ensures
        resolved->Err_0@ == ErrorView::Other(
            match reference@ {
                TaskRefKind::Initial { job_definition, position } => if job_definition != id {
                    "job '"@ + job@ + "' declares a dependency on a task outside its own job"@
                } else {
                    "job '"@ + job@ + "' declares a dependency on initial task position "@ + decimal(
                        position as int,
                    ) + ", which it does not have"@
                },
                TaskRefKind::Created(task) => "job '"@ + job@
                    + "' declares an initial task depending on task '"@ + uuid_text(task)
                    + "' created at runtime"@,
            },
        ),
{
}

/// A second executor for a code is refused by name.
pub proof fn law_second_executor_is_named(
    executors: &mut TaskExecutors,
    job: &JobCode,
    task: TaskCode,
    executor: ExecutorId,
    added: Result<(), Error>,
)
    requires
        call_ensures(TaskExecutors::register, (executors, job, task, executor), added),
        added is Err,
    ensures
        added->Err_0@ == ErrorView::Other(
            "job '"@ + job@ + "' registers two different executors for task '"@ + task@ + "'"@,
        ),
{
}

/// Refused settings are told what they have to be.
pub proof fn law_refused_settings_are_told_why(
    job: JobDefinition,
    count: u64,
    span: Duration,
    set: Result<JobDefinition, Error>,
    config: WorkerConfig,
    changed: Result<WorkerConfig, Error>,
    manager: &JobsManagerConfig,
    valid: Result<(), Error>,
)
    ensures
        call_ensures(JobDefinition::with_max_iterations, (job, count), set) && set is Err
            ==> set->Err_0@ == ErrorView::Other("job max iterations must be positive"@),
        call_ensures(JobDefinition::with_iteration_retention, (job, count), set) && set is Err
            ==> set->Err_0@ == ErrorView::Other(
            "job iteration retention must be at least "@ + decimal(5),
        ),
        call_ensures(JobDefinition::with_iteration_interval, (job, span), set) && set is Err
            ==> set->Err_0@ == ErrorView::Other(
            if span@ == 0 {
                "job iteration interval must be positive"@
            } else {
                "job iteration interval is too large"@
            },
        ),
        call_ensures(WorkerConfig::with_poll_interval, (config, span), changed) && changed is Err
            ==> changed->Err_0@ == ErrorView::Other(
            if span@ == 0 {
                "poll interval must be positive"@
            } else if span@ > a_year() {
                "poll interval must not exceed a year"@
            } else {
                "max poll interval must not be below the poll interval"@
            },
        ),
        call_ensures(WorkerConfig::with_max_poll_interval, (config, span), changed)
            && changed is Err ==> changed->Err_0@ == ErrorView::Other(
            if span@ < config@.poll_interval {
                "max poll interval must not be below the poll interval"@
            } else {
                "max poll interval must not exceed a year"@
            },
        ),
        call_ensures(JobsManagerConfig::validate, (manager,), valid) && valid is Err
            ==> valid->Err_0@ == ErrorView::Other("worker count must be at least 1"@),
{
}

/// What a registry does not hold is named.
pub proof fn law_what_is_not_registered_is_named(
    registry: &JobRegistry,
    job: &JobCode,
    task: &TaskCode,
    found: Result<JobDefinition, Error>,
    executor: Result<ExecutorId, Error>,
    limit: Result<u64, Error>,
    jobs: Vec<JobDefinition>,
    built: Result<JobRegistry, Error>,
)
    ensures
        call_ensures(JobRegistry::get_job, (registry, job), found) && found is Err
            ==> found->Err_0@ == ErrorView::Other("job definition "@ + job@ + " not found"@),
        call_ensures(JobRegistry::get_task_executor, (registry, job, task), executor)
            && executor is Err ==> executor->Err_0@ == ErrorView::Other(
            "executor for task "@ + task@ + " and job "@ + job@ + " not exist"@,
        ),
        call_ensures(JobRegistry::completing_iteration, (registry, job), limit) && limit is Err
            ==> limit->Err_0@ == ErrorView::Other(
            if registry@.contains_key(job@) {
                "job '"@ + job@ + "' has no iteration limit, so it never completes"@
            } else {
                "job definition "@ + job@ + " not found"@
            },
        ),
        call_ensures(JobRegistry::new, (jobs,), built) && jobs@.len() == 0 ==> built is Err
            && built->Err_0@ == ErrorView::Other("jobs cannot be empty"@),
{
}

/// Whoever waits for a job in vain, or uses a handle too late, is told so.
pub proof fn law_waiting_in_vain_is_told(
    records: &FinishedIterations,
    job: &JobCode,
    last: Result<Option<u64>, Error>,
    error: Error,
    state: &JobHandleState,
    open: Result<(), Error>,
)
    ensures
        call_ensures(FinishedIterations::last_finished, (records, job), last) && last is Err
            ==> last->Err_0@ == ErrorView::Other("job '"@ + job@ + "' is not run by this pool"@),
        call_ensures(stopped_pool_error, (job,), error) ==> error@ == ErrorView::Other(
            "the worker pool stopped before an iteration of job '"@ + job@ + "' finished"@,
        ),
        call_ensures(JobHandleState::check_open, (state,), open) && open is Err ==> open->Err_0@
            == ErrorView::Other(
            "job handle is no longer valid: the task execution it belongs to has finished"@,
        ),
{
}

/// A description is refused in these words, for the first thing that is wrong with it.
pub proof fn law_refused_description_is_told_why(
    id: JobDefinitionId,
    code: JobCode,
    initial: Vec<(TaskDefinition, ExecutorId)>,
    runtime: Vec<(TaskCode, ExecutorId)>,
    declared: Vec<(TaskRef, Vec<TaskRef>)>,
    limits: TaskLimits,
    built: Result<JobDefinition, Error>,
)
    requires
        call_ensures(JobDefinition::new, (id, code, initial, runtime, declared, limits), built),
        initial@.len() == 0,
    ensures
        built is Err,
        built->Err_0@ == ErrorView::Other(
            "job '"@ + code@ + "' has no initial task: declare at least one with add_task()"@,
        ),
{
}

/// The first of several tasks that does not pass, or that brings a second executor for its code, is
/// reported by its job, and by its position or its code.
pub proof fn law_first_wrong_task_is_reported(
    job: Seq<char>,
    tasks: Seq<(TaskDefinitionView, ExecutorId)>,
    task: (TaskDefinitionView, ExecutorId),
    limits: TaskLimits,
)
    requires
        bind_initial(job, tasks, limits) is Ok,
    ensures
        ({
            let executors = bind_initial(job, tasks, limits)->Ok_0;
            let more = bind_initial(job, tasks.push(task), limits);
            &&& task.0.rejection(limits) matches Some(reason) ==> more is Err && more->Err_0
                == "job '"@ + job + "' initial task "@ + decimal(tasks.len() as int) + ": "@ + reason
            &&& task.0.rejection(limits) is None && executors.contains_key(task.0.code)
                && executors[task.0.code] != task.1 ==> more is Err && more->Err_0 == "job '"@ + job
                + "' registers two different executors for task '"@ + task.0.code + "'"@
        }),
{
    assert(tasks.push(task).drop_last() =~= tasks);
}

/// The first of several tasks that tolerates what it does not wait for is reported by its position.
pub proof fn law_first_idle_tolerance_is_reported(
    job: Seq<char>,
    tasks: Seq<TaskDefinitionView>,
    task: TaskDefinitionView,
)
    requires
        idle_tolerance_refusal(job, tasks) is None,
        task.depends_on.len() == 0,
        task.tolerance.allows_failed || task.tolerance.allows_skipped,
    ensures
        idle_tolerance_refusal(job, tasks.push(task)) == Some(
            "job '"@ + job + "' initial task "@ + decimal(tasks.len() as int) + ": "@
                + "task tolerates unreachable dependencies but depends on none"@,
        ),
{
    assert(tasks.push(task).drop_last() =~= tasks);
}

/// The first of several jobs without a code, or with that of another, is reported.
pub proof fn law_first_wrong_job_is_reported(jobs: Seq<JobDefinitionView>, job: JobDefinitionView)
    requires
        registered(jobs) is Ok,
    ensures
        job.code.len() == 0 ==> registered(jobs.push(job)) == Err::<
            Map<Seq<char>, JobDefinitionView>,
            Seq<char>,
        >("job code cannot be empty"@),
        job.code.len() > 0 && registered(jobs)->Ok_0.contains_key(job.code) ==> registered(
            jobs.push(job),
        ) == Err::<Map<Seq<char>, JobDefinitionView>, Seq<char>>(
            "job "@ + job.code + " has duplicate"@,
        ),
{
    assert(jobs.push(job).drop_last() =~= jobs);
}

/// A pool without a job is refused for that, and one without a backend where that alone is missing.
pub proof fn law_unfinished_pool_is_told_what_is_missing(
    jobs: Vec<JobBuilder>,
    built: Result<JobRegistry, Error>,
    builder: JobsManagerBuilder,
    drafted: Result<PoolDraft, Error>,
)
    ensures
        call_ensures(build_registry, (jobs,), built) && jobs@.len() == 0 ==> built is Err
            && built->Err_0@ == ErrorView::Other("at least one job must be added"@),
        call_ensures(JobsManagerBuilder::build, (builder,), drafted) && is_complete(builder.jobs@)
            && drafted is Err ==> drafted->Err_0@ == ErrorView::Other(
            "storage backend is not configured: call s3() or in_memory()"@,
        ),
{
    if call_ensures(JobsManagerBuilder::build, (builder,), drafted) && is_complete(builder.jobs@)
        && drafted is Err {
        lemma_refused_draft(builder, drafted);
    }
}

} // verus!
