//! What a worker's decisions come to: how executions end, races are settled and passes go on.

use vstd::prelude::*;

use crate::error::{
    InternalError, InternalErrorView, JobError, JobErrorView, StorageError, StorageErrorKind,
};
use crate::execution::{
    after_iteration_start, after_load, answers_step, after_save, after_settling, begin_pass, begin_pass_at,
    check_task_resolution, closed_by_worker, conclude_execution, conclude_execution_at,
    conclude_pass, concludes, failure_text, iteration_duration, panic_payload_to_string,
    pick_work, pick_work_in_order, picks_work, prepare_execution, settle_conflict,
    settle_conflict_at, settles, task_duration, time_until_deadline, ConflictPolicy, Execution,
    ExecutionEnd, ExecutionVerdict, LoadStep, MergeDecision, PassStart, PassStep, PickedWork,
    SaveOutcome, SaveReason, SaveStep,
};
use crate::job::{lemma_given_up_fit, Job};
use crate::job_laws::{is_allowed_step, is_over, law_allowed_step_is_unique};
use crate::job_view::{is_walk, IterationStepView, JobView, TaskPickup};
use crate::outcome::TaskOutcome;
use crate::pick_laws::{is_done, is_passed_by, law_settled_means_done};
use crate::poll::JobPassOutcome;
use crate::registry::JobRegistry;
use crate::retrier::RetryStep;
use crate::status::{JobStatus, TaskRetry, TaskStatus};
use crate::task::{Task, TaskView, Uuid};
use crate::task_laws::{can_run, is_past, is_refusal, is_result, is_start};
use crate::time::{is_dated, Duration, Moment};

verus! {

// Executions

/// Whether a task in this state came to some end already.
pub open spec fn is_resolved(task: TaskView) -> bool {
    task.status == TaskStatus::Completed || task.status == TaskStatus::Failed || task.status is Skipped
}

/// Whether an execution of the task `id` that ended like this ended well: it returned a payload that
/// fits while the task ran within its lifetime, or deferred to a resolution it had written.
pub open spec fn ended_well(job: JobView, id: Uuid, end: ExecutionEnd, now: int) -> bool {
    &&& job.tasks.contains_key(id)
    &&& match end {
        ExecutionEnd::Returned(TaskOutcome::Completed(output)) => output@.len()
            <= job.task_limits.max_output_bytes && job.tasks[id].status == TaskStatus::Started
            && !is_past(job.tasks[id].lifetime_deadline_at, now),
        ExecutionEnd::Returned(TaskOutcome::Deferred) => is_resolved(job.tasks[id]),
        _ => false,
    }
}

/// Whether `after` differs from `before`, its tasks aside, at most in being ended as completed by
/// `worker` at `now`; and a running iteration ends exactly where every task is done.
pub open spec fn is_kept_or_completed(
    before: JobView,
    after: JobView,
    worker: Uuid,
    now: int,
) -> bool {
    let done = after.tasks.dom().len() > 0 && forall|id: Uuid|
        #[trigger] after.tasks.contains_key(id) ==> is_done(after, id, now);
    if before.status == JobStatus::Running && done {
        after == (JobView {
            tasks: after.tasks,
            status: JobStatus::Completed,
            updated_by_worker_id: worker,
            completed_at: Some(now),
            ..before
        })
    } else {
        after == (JobView { tasks: after.tasks, ..before })
    }
}

/// Whether the tasks beside `id` are as they were: those its execution created are gone where it failed,
/// and blocked ones may have been given up with their branch.
pub open spec fn leaves_the_others(
    before: JobView,
    after: JobView,
    id: Uuid,
    failed: bool,
    now: int,
) -> bool {
    forall|other: Uuid|
        other != id ==> {
            &&& #[trigger] after.tasks.contains_key(other) <==> before.tasks.contains_key(other) && !(
            failed && before.tasks[other].created_by_task == Some(id))
            &&& after.tasks.contains_key(other) ==> after.tasks[other] == before.tasks[other] || (
            before.tasks[other].status == TaskStatus::Blocked && is_passed_by(
                before.tasks[other],
                after.tasks[other],
                now,
            ))
        }
}

/// The completion of an iteration is tried on what the execution left.
proof fn lemma_completion_tried(job: JobView, worker: Uuid, now: int)
    requires
        job.completion_tried(worker, now) is Ok,
    ensures
        ({
            let after = job.completion_tried(worker, now)->Ok_0;
            &&& is_kept_or_completed(job, after, worker, now)
            &&& after.tasks.dom() == job.tasks.dom()
            &&& forall|id: Uuid| #[trigger]
                job.tasks.contains_key(id) ==> after.tasks[id] == job.tasks[id] || (
                job.tasks[id].status == TaskStatus::Blocked && is_passed_by(
                    job.tasks[id],
                    after.tasks[id],
                    now,
                ))
        }),
{
    let left = job.branches_given_up(now);
    let after = job.completion_tried(worker, now)->Ok_0;
    if job.status == JobStatus::Running {
        lemma_given_up_fit(job, job.tasks.dom().len(), now);
        law_settled_means_done(left, after, now);
    }
}

/// What becomes of an execution that is brought into the job: one a shutdown or its deadline released
/// leaves the job alone; one that ended well stores its payload or leaves the resolution its executor
/// wrote; any other fails its task in its own words, to be repeated while attempts and lifetime last,
/// and takes what it created with it - unless its executor resolved the task, which then stands.
pub proof fn law_execution_is_brought_into_the_job(
    job: &mut Job,
    id: &Uuid,
    worker: &Uuid,
    end: ExecutionEnd,
    shutdown: bool,
    deadline_passed: bool,
    now: Moment,
    verdict: Result<ExecutionVerdict, InternalError>,
)
    requires
        call_ensures(
            conclude_execution_at,
            (job, id, worker, end, shutdown, deadline_passed, now),
            verdict,
        ),
        old(job)@.tasks.contains_key(*id) ==> old(job)@.tasks[*id].created_by_task != Some(*id),
    ensures
        ({
            let before = old(job)@;
            let after = final(job)@;
            let released = end == ExecutionEnd::Returned(TaskOutcome::Cancelled) && deadline_passed;
            let well = ended_well(before, *id, end, now@);
            let task = before.tasks[*id];
            &&& shutdown ==> after == before && (verdict matches Err(e) && e@
                == InternalErrorView::Cancelled)
            &&& !shutdown && released ==> after == before && verdict == Ok::<
                ExecutionVerdict,
                InternalError,
            >(ExecutionVerdict::ReleasedByDeadline)
            &&& !shutdown && !released && verdict is Ok ==> {
                &&& before.tasks.contains_key(*id) && after.tasks.contains_key(*id)
                &&& verdict == Ok::<ExecutionVerdict, InternalError>(
                    ExecutionVerdict::Save(
                        if well {
                            SaveReason::CompletedTask
                        } else {
                            SaveReason::FailedTask
                        },
                    ),
                )
                &&& well ==> (end matches ExecutionEnd::Returned(TaskOutcome::Completed(output))
                    ==> is_result(task, after.tasks[*id], output@, now@))
                &&& is_resolved(task) ==> after.tasks[*id] == task
                &&& !well && !is_resolved(task) ==> task.status == TaskStatus::Started && is_refusal(
                    task,
                    after.tasks[*id],
                    after.tasks[*id].resolution_reason,
                    TaskRetry::WhileBudgetLasts,
                    now@,
                )
                &&& !well && !is_resolved(task) ==> (end matches ExecutionEnd::Refused(message)
                    ==> after.tasks[*id].resolution_reason == message@)
                &&& !well && !is_resolved(task) ==> (end matches ExecutionEnd::Panicked(message)
                    ==> after.tasks[*id].resolution_reason == "executor panicked: "@ + message@)
                &&& leaves_the_others(before, after, *id, !well && !is_resolved(task), now@)
                &&& is_kept_or_completed(before, after, *worker, now@)
            }
            &&& !shutdown && !released && before.status == JobStatus::Running ==> (verdict is Ok
                <==> before.tasks.contains_key(*id) && (is_resolved(task) || task.status
                == TaskStatus::Started))
        }),
{
    let before = old(job)@;
    let after = final(job)@;
    let released = end == ExecutionEnd::Returned(TaskOutcome::Cancelled) && deadline_passed;
    if !shutdown && !released {
        let recorded = match failure_text(before, *id, end, now@) {
            None => closed_by_worker(before, *id, end, now@),
            Some(message) => before.failure_recorded(*id, message, now@)->Ok_0,
        };
        if verdict is Ok {
            assert(before.tasks.contains_key(*id));
            lemma_completion_tried(recorded, *worker, now@);
            assert(recorded.tasks.contains_key(*id));
            assert forall|other: Uuid| other != *id implies {
                &&& #[trigger] after.tasks.contains_key(other) <==> recorded.tasks.contains_key(other)
            } by {
                assert(after.tasks.dom().contains(other) <==> recorded.tasks.dom().contains(other));
            }
        }
    }
}

/// A task whose executor returned an error or panicked is to be started again: where it has spent fewer
/// attempts than it has, a worker may, at every moment up to the end of its lifetime, and otherwise none
/// may.
pub proof fn law_refused_task_is_retried_while_its_limits_last(
    job: &mut Job,
    id: &Uuid,
    worker: &Uuid,
    end: ExecutionEnd,
    deadline_passed: bool,
    now: Moment,
    verdict: Result<ExecutionVerdict, InternalError>,
    later: int,
)
    requires
        call_ensures(
            conclude_execution_at,
            (job, id, worker, end, false, deadline_passed, now),
            verdict,
        ),
        end is Refused || end is Panicked,
        verdict is Ok,
        old(job)@.tasks.contains_key(*id),
        old(job)@.tasks[*id].status == TaskStatus::Started,
        old(job)@.tasks[*id].created_by_task != Some(*id),
    ensures
        final(job)@.tasks.contains_key(*id),
        can_run(final(job)@.tasks[*id], later) <==> old(job)@.tasks[*id].attempt < old(
            job,
        )@.tasks[*id].max_attempts && !is_past(old(job)@.tasks[*id].lifetime_deadline_at, later),
        final(job)@.tasks[*id].attempt == old(job)@.tasks[*id].attempt,
{
    law_execution_is_brought_into_the_job(
        job,
        id,
        worker,
        end,
        false,
        deadline_passed,
        now,
        verdict,
    );
}

/// A task an executor deferred has to be resolved, and held at all.
pub proof fn law_deferred_task_has_to_be_resolved(
    job: &Job,
    id: &Uuid,
    checked: Result<(), InternalError>,
)
    requires
        call_ensures(check_task_resolution, (job, id), checked),
    ensures
        checked is Ok <==> job@.tasks.contains_key(*id) && is_resolved(job@.tasks[*id]),
        !job@.tasks.contains_key(*id) ==> (checked matches Err(e) && e@ == InternalErrorView::Job(
            JobErrorView::TaskNotFound,
        )),
{
}

/// An execution is prepared with the executor registered for the task's code in its own job, the task as
/// it is, and its deadline.
pub proof fn law_execution_is_prepared_for_its_task(
    job: &Job,
    registry: &JobRegistry,
    id: &Uuid,
    prepared: Result<Execution, InternalError>,
)
    requires
        call_ensures(prepare_execution, (job, registry, id), prepared),
    ensures
        ({
            let task = job@.tasks[*id];
            &&& prepared is Ok <==> job@.tasks.contains_key(*id) && registry@.contains_key(job@.code)
                && registry@[job@.code].task_executors.contains_key(task.code)
            &&& prepared matches Ok(execution) ==> {
                &&& execution.executor == registry@[job@.code].task_executors[task.code]
                &&& execution.task@ == task
                &&& task.deadline_at is None ==> execution.deadline_at is None
                &&& task.deadline_at is Some ==> execution.deadline_at is Some
                    && execution.deadline_at->Some_0@ == task.deadline_at->Some_0
            }
        }),
{
}

/// A panic that carries a message is reported in its words.
pub proof fn law_panic_is_reported_in_its_words(message: Option<String>, text: String)
    requires
        call_ensures(panic_payload_to_string, (message,), text),
    ensures
        message matches Some(message) ==> text@ == message@,
        message is None ==> text@ == "unknown panic"@,
{
}

/// How long something took is the time between its two moments, and nothing where one is missing or they
/// are the other way round.
pub proof fn law_durations_run_from_start_to_end(
    task: &Task,
    job: &Job,
    deadline: Moment,
    now: Moment,
    duration: Duration,
)
    ensures
        call_ensures(task_duration, (task,), duration) ==> {
            &&& task@.started_at is Some && task@.completed_at is Some && task@.started_at->Some_0
                <= task@.completed_at->Some_0 ==> task@.started_at->Some_0 + duration@
                == task@.completed_at->Some_0
            &&& task@.started_at is None || task@.completed_at is None || task@.started_at->Some_0
                > task@.completed_at->Some_0 ==> duration@ == 0
        },
        call_ensures(iteration_duration, (job,), duration) ==> {
            &&& job@.completed_at is Some && job@.started_at <= job@.completed_at->Some_0
                ==> job@.started_at + duration@ == job@.completed_at->Some_0
            &&& job@.completed_at is None || job@.started_at > job@.completed_at->Some_0
                ==> duration@ == 0
        },
        call_ensures(time_until_deadline, (deadline, now), duration) ==> {
            &&& now@ <= deadline@ ==> now@ + duration@ == deadline@
            &&& now@ > deadline@ ==> duration@ == 0
        },
{
}

// Work

/// A worker that finds a task ready starts it and names it; a task that turns out to be another worker's
/// is reported as taken. Where it finds none it does nothing, or reports how the iteration ended.
pub proof fn law_found_task_is_started(
    job: &mut Job,
    worker: Uuid,
    order: &Vec<Uuid>,
    picked_at: Moment,
    started_at: Moment,
    picked: Result<PickedWork, InternalError>,
)
    requires
        call_ensures(pick_work_in_order, (job, worker, order, picked_at, started_at), picked),
    ensures
        ({
            let after = final(job)@;
            let (found, pickup) = old(job)@.picked(worker, order@, picked_at@);
            &&& pickup matches Err(error) ==> picked is Err && picked->Err_0@
                == InternalErrorView::Job(error)
            &&& (picked matches Ok(PickedWork::Nothing)) <==> pickup == Ok::<
                TaskPickup,
                JobErrorView,
            >(TaskPickup::Waiting)
            &&& (picked matches Ok(PickedWork::IterationFailed)) <==> pickup == Ok::<
                TaskPickup,
                JobErrorView,
            >(TaskPickup::Exhausted)
            &&& (picked matches Ok(PickedWork::IterationCompleted)) <==> pickup == Ok::<
                TaskPickup,
                JobErrorView,
            >(TaskPickup::Settled)
            &&& picked matches Ok(PickedWork::Started(id, code)) ==> {
                &&& pickup == Ok::<TaskPickup, JobErrorView>(TaskPickup::Ready(id))
                &&& code@ == found.tasks[id].code
                &&& can_run(found.tasks[id], started_at@)
                &&& is_start(found.tasks[id], after.tasks[id], worker, started_at@)
                &&& after.tasks == found.tasks.insert(id, after.tasks[id])
                &&& after == (JobView { tasks: after.tasks, updated_by_worker_id: worker, ..found })
            }
            &&& picked matches Ok(PickedWork::Stolen(code)) ==> {
                let id = pickup->Ok_0->Ready_0;
                &&& pickup->Ok_0 is Ready && after == found
                &&& code@ == found.tasks[id].code
                &&& !can_run(found.tasks[id], started_at@)
                &&& found.tasks[id].processing_by_worker is Some
                    && found.tasks[id].processing_by_worker != Some(worker)
            }
            &&& !(picked matches Ok(PickedWork::Started(_, _))) ==> after == found
            &&& pickup matches Ok(TaskPickup::Ready(id)) ==> (found.tasks.contains_key(id) && can_run(
                found.tasks[id],
                started_at@,
            ) && is_dated(started_at@ + found.tasks[id].timeout) && (
            found.tasks[id].lifetime_deadline_at is Some || is_dated(
                started_at@ + found.tasks[id].max_lifetime,
            )) <==> (picked matches Ok(PickedWork::Started(_, _))))
        }),
{
}

// Races

/// Whether an iteration may move from one state to the other.
pub open spec fn may_become(from: JobStatus, to: JobStatus) -> bool {
    ||| from == JobStatus::Started && (to == JobStatus::Running || to == JobStatus::Failed)
    ||| from == JobStatus::Running && (to == JobStatus::Running || to == JobStatus::Completed || to
        == JobStatus::Failed)
    ||| (from == JobStatus::Completed || from == JobStatus::Failed) && to == JobStatus::Started
}

/// Iterations move between states by these rules alone, and a refused move changes nothing.
pub proof fn law_states_follow_the_rules(
    status: &mut JobStatus,
    from: &JobStatus,
    to: JobStatus,
    moved: Result<(), JobError>,
)
    ensures
        call_ensures(JobStatus::can_transition_to, (from, &to), moved) ==> (moved is Ok <==> may_become(
            *from,
            to,
        )),
        call_ensures(JobStatus::transition_to, (status, to), moved) ==> {
            &&& moved is Ok <==> may_become(*old(status), to)
            &&& *final(status) == if moved is Ok {
                to
            } else {
                *old(status)
            }
        },
{
}

/// Whether another worker holds the task in the stored job.
pub open spec fn is_anothers(stored: JobView, id: Uuid, worker: Uuid) -> bool {
    stored.tasks.contains_key(id) && stored.tasks[id].processing_by_worker is Some
        && stored.tasks[id].processing_by_worker != Some(worker)
}

/// Whether `after` is the stored job with the start of the task `id` brought in.
pub open spec fn is_start_merged(
    stored: JobView,
    current: JobView,
    after: JobView,
    worker: Uuid,
    id: Uuid,
) -> bool {
    &&& after.tasks == stored.tasks.insert(id, current.tasks[id])
    &&& after.status == current.status
    &&& after.updated_by_worker_id == worker
    &&& stored.running_at is Some ==> after.running_at == stored.running_at
    &&& stored.running_at is None ==> after.running_at == current.running_at
    &&& after == (JobView {
        tasks: after.tasks,
        status: after.status,
        updated_by_worker_id: after.updated_by_worker_id,
        running_at: after.running_at,
        ..stored
    })
}

/// Whether `after` is the stored job with the worker's results brought in: what the worker processed,
/// and what it created that is not stored yet, are the worker's; every other stored task stays.
pub open spec fn is_result_merged(
    stored: JobView,
    current: JobView,
    after: JobView,
    worker: Uuid,
) -> bool {
    &&& forall|id: Uuid|
        #![trigger after.tasks.contains_key(id)]
        {
            let processed = current.tasks.contains_key(id)
                && current.tasks[id].processing_by_worker == Some(worker);
            let created = current.tasks.contains_key(id) && current.tasks[id].created_by_worker
                == worker && current.tasks[id].processing_by_worker is None
                && !stored.tasks.contains_key(id);
            &&& after.tasks.contains_key(id) <==> stored.tasks.contains_key(id) || processed
                || created
            &&& processed || created ==> after.tasks[id] == current.tasks[id]
            &&& !processed && !created && stored.tasks.contains_key(id) ==> after.tasks[id]
                == stored.tasks[id]
        }
    &&& after.status == current.status
    &&& after.updated_by_worker_id == worker
    &&& current.running_at is Some ==> after.running_at == current.running_at
    &&& current.running_at is None ==> after.running_at == stored.running_at
    &&& current.completed_at is Some ==> after.completed_at == current.completed_at
    &&& current.completed_at is None ==> after.completed_at == stored.completed_at
    &&& current.next_start_at is Some ==> after.next_start_at == current.next_start_at
    &&& current.next_start_at is None ==> after.next_start_at == stored.next_start_at
    &&& after == (JobView {
        tasks: after.tasks,
        status: after.status,
        updated_by_worker_id: after.updated_by_worker_id,
        running_at: after.running_at,
        completed_at: after.completed_at,
        next_start_at: after.next_start_at,
        ..stored
    })
}

/// The start of a task is brought into a stored job exactly where both are the same job, the task is
/// stored there and no other worker's, the worker did start it, and the states allow it.
pub proof fn law_start_is_merged_unless_the_task_is_anothers(
    job: &mut Job,
    current: &Job,
    worker: &Uuid,
    id: &Uuid,
    merged: Result<(), JobError>,
)
    requires
        call_ensures(Job::merge_with_picked_task, (job, current, worker, id), merged),
    ensures
        merged is Ok <==> {
            &&& old(job)@.id == current@.id
            &&& old(job)@.tasks.contains_key(*id) && !is_anothers(old(job)@, *id, *worker)
            &&& current@.tasks.contains_key(*id) && current@.tasks[*id].status == TaskStatus::Started
            &&& may_become(old(job)@.status, current@.status)
        },
        merged is Ok ==> is_start_merged(old(job)@, current@, final(job)@, *worker, *id),
        merged is Err ==> final(job)@ == old(job)@,
        (merged matches Err(e) && e@ == JobErrorView::TaskWorkerMismatch) <==> old(job)@.id
            == current@.id && is_anothers(old(job)@, *id, *worker),
{
}

/// The result of a task is brought into a stored job exactly where both are the same job, the task is
/// stored there and no other worker's, and the states allow it.
pub proof fn law_result_is_merged_unless_the_task_is_anothers(
    job: &mut Job,
    current: &Job,
    worker: &Uuid,
    id: &Uuid,
    merged: Result<(), JobError>,
)
    requires
        call_ensures(Job::merge_with_processed_task, (job, current, worker, id), merged),
    ensures
        merged is Ok <==> {
            &&& old(job)@.id == current@.id
            &&& old(job)@.tasks.contains_key(*id) && !is_anothers(old(job)@, *id, *worker)
            &&& may_become(old(job)@.status, current@.status)
        },
        merged is Ok ==> is_result_merged(old(job)@, current@, final(job)@, *worker),
        merged is Err ==> final(job)@ == old(job)@,
        (merged matches Err(e) && e@ == JobErrorView::TaskWorkerMismatch) <==> old(job)@.id
            == current@.id && is_anothers(old(job)@, *id, *worker),
{
}

/// A worker that lost a race lets the stored job stand where it insists on nothing or the task is
/// another worker's; otherwise it goes on with its start or its result brought in, the latter completing
/// the iteration where every task is done.
pub proof fn law_lost_race_is_settled_without_loss(
    policy: ConflictPolicy,
    current: &Job,
    saved: Job,
    now: Moment,
    decision: Result<MergeDecision, InternalError>,
)
    requires
        call_ensures(settle_conflict_at, (policy, current, saved, now), decision),
    ensures
        policy is KeepSaved ==> (decision matches Ok(MergeDecision::Done(standing, outcome))
            && standing@ == saved@ && outcome == SaveOutcome::Skipped),
        policy matches ConflictPolicy::MergePicked { worker, task } ==> {
            &&& saved@.id == current@.id && is_anothers(saved@, task, worker) ==> (
            decision matches Ok(MergeDecision::Done(standing, outcome)) && standing@ == saved@
                && outcome == SaveOutcome::Stolen)
            &&& decision matches Ok(MergeDecision::Done(_, _)) ==> saved@.id == current@.id
                && is_anothers(saved@, task, worker)
            &&& (decision matches Ok(MergeDecision::Retry(_))) <==> {
                &&& saved@.id == current@.id
                &&& saved@.tasks.contains_key(task) && !is_anothers(saved@, task, worker)
                &&& current@.tasks.contains_key(task) && current@.tasks[task].status
                    == TaskStatus::Started
                &&& may_become(saved@.status, current@.status)
            }
            &&& decision matches Ok(MergeDecision::Retry(merged)) ==> is_start_merged(
                saved@,
                current@,
                merged@,
                worker,
                task,
            )
        },
        policy matches ConflictPolicy::MergeProcessed { worker, task } ==> {
            &&& saved@.id == current@.id && is_anothers(saved@, task, worker) ==> (
            decision matches Ok(MergeDecision::Done(standing, outcome)) && standing@ == saved@
                && outcome == SaveOutcome::Stolen)
            &&& decision matches Ok(MergeDecision::Done(_, _)) ==> saved@.id == current@.id
                && is_anothers(saved@, task, worker)
            &&& decision matches Ok(MergeDecision::Retry(merged)) ==> {
                &&& saved@.id == current@.id
                &&& saved@.tasks.contains_key(task) && !is_anothers(saved@, task, worker)
                &&& may_become(saved@.status, current@.status)
                &&& exists|brought: JobView|
                    #[trigger] is_result_merged(saved@, current@, brought, worker)
                        && is_kept_or_completed(brought, merged@, worker, now@)
                        && merged@.tasks.dom() == brought.tasks.dom() && forall|id: Uuid|
                        #[trigger] brought.tasks.contains_key(id) ==> merged@.tasks[id]
                            == brought.tasks[id] || (brought.tasks[id].status == TaskStatus::Blocked
                            && is_passed_by(brought.tasks[id], merged@.tasks[id], now@))
            }
            &&& saved@.id == current@.id && saved@.tasks.contains_key(task) && !is_anothers(
                saved@,
                task,
                worker,
            ) && saved@.status == JobStatus::Running && current@.status == JobStatus::Running ==> (
            decision matches Ok(MergeDecision::Retry(_)))
        },
{
    if let ConflictPolicy::MergeProcessed { worker, task } = policy {
        let brought = saved@.merged_with_processed(current@, worker);
        assert(is_result_merged(saved@, current@, brought, worker)
            || saved@.processed_merge_refusal(current@, worker, task) is Some) by {
            assert forall|id: Uuid|
                #![trigger brought.tasks.contains_key(id)]
                true implies {
                let processed = current@.tasks.contains_key(id)
                    && current@.tasks[id].processing_by_worker == Some(worker);
                let created = current@.tasks.contains_key(id) && current@.tasks[id].created_by_worker
                    == worker && current@.tasks[id].processing_by_worker is None
                    && !saved@.tasks.contains_key(id);
                &&& brought.tasks.contains_key(id) <==> saved@.tasks.contains_key(id) || processed
                    || created
                &&& processed || created ==> brought.tasks[id] == current@.tasks[id]
                &&& !processed && !created && saved@.tasks.contains_key(id) ==> brought.tasks[id]
                    == saved@.tasks[id]
            } by {}
        }
        if decision matches Ok(MergeDecision::Retry(_)) {
            lemma_completion_tried(brought, worker, now@);
        }
    }
}

// Passes

/// A pass creates a job that is not stored, goes on with one that is, and stalls on any other trouble.
pub proof fn law_missing_job_is_created(loaded: Result<Job, StorageError>, step: LoadStep)
    requires
        call_ensures(after_load, (loaded,), step),
    ensures
        loaded matches Ok(job) ==> step == LoadStep::Process(job),
        step is Create <==> (loaded matches Err(e) && e@.kind == StorageErrorKind::NotFound),
        (loaded matches Err(e) && e@.kind != StorageErrorKind::NotFound) ==> step == LoadStep::End(
            JobPassOutcome::Stalled,
        ),
{
}

/// Whether a pass over the job may take this step at `now`.
pub open spec fn is_allowed(job: JobView, step: PassStep, now: int) -> bool {
    match step {
        PassStep::ExecuteTask => !is_over(job),
        PassStep::StartIteration => is_allowed_step(
            job,
            IterationStepView::NextIterationReady,
            now,
        ),
        PassStep::End(JobPassOutcome::IterationBudgetSpent) => is_allowed_step(
            job,
            IterationStepView::IterationBudgetSpent,
            now,
        ),
        PassStep::End(JobPassOutcome::NextIterationDueAt(due)) => is_allowed_step(
            job,
            IterationStepView::NextIterationDueAt(due@),
            now,
        ),
        PassStep::End(JobPassOutcome::Stalled) => is_allowed_step(
            job,
            IterationStepView::NextIterationUnscheduled,
            now,
        ),
        PassStep::End(JobPassOutcome::Processed) => false,
    }
}

/// A pass reports an iteration that is over, and takes the step the schedule allows: it executes a task
/// of an open one, starts the next one exactly when it is due, and otherwise ends with what to wait for.
pub proof fn law_pass_takes_the_allowed_step(job: &Job, now: Moment, start: PassStart)
    requires
        call_ensures(begin_pass_at, (job, now), start),
    ensures
        start.reports_finished == is_over(job@),
        start.step == PassStep::ExecuteTask <==> !is_over(job@),
        is_allowed(job@, start.step, now@),
{
    law_allowed_step_is_unique(job@, now@);
}

/// An iteration that was started is gone on with exactly where it came back open, and a pass moved its
/// job exactly where it executed a task.
pub proof fn law_pass_ends_by_what_it_did(
    started: &Result<Job, InternalError>,
    step: PassStep,
    executed: &Result<bool, InternalError>,
    outcome: JobPassOutcome,
)
    ensures
        call_ensures(after_iteration_start, (started,), step) ==> {
            &&& step == PassStep::ExecuteTask <==> (*started is Ok && !is_over((*started)->Ok_0@))
            &&& step != PassStep::ExecuteTask ==> step == PassStep::End(JobPassOutcome::Stalled)
        },
        call_ensures(conclude_pass, (executed,), outcome) ==> {
            &&& outcome == JobPassOutcome::Processed <==> (*executed is Ok && (*executed)->Ok_0)
            &&& outcome != JobPassOutcome::Processed ==> outcome == JobPassOutcome::Stalled
        },
{
}

/// A save is settled anew exactly where another writer came first; any other trouble ends it, and a
/// cancellation as such.
pub proof fn law_only_a_conflict_is_settled(saved: Result<(), StorageError>, step: SaveStep)
    requires
        call_ensures(after_save, (saved,), step),
    ensures
        step is Saved <==> saved is Ok,
        step is Refresh <==> saved is Err && saved->Err_0@.kind
            == StorageErrorKind::ConcurrentModification,
        step matches SaveStep::Refresh(e) ==> e@ == InternalErrorView::Storage(saved->Err_0@),
        step matches SaveStep::Failed(e) ==> e@ == if saved->Err_0@.kind
            == StorageErrorKind::Cancelled {
            InternalErrorView::Cancelled
        } else {
            InternalErrorView::Storage(saved->Err_0@)
        },
{
}

/// A settled race goes on with its job: to another attempt where something was brought in, and to its
/// outcome where the stored job stands.
pub proof fn law_settled_race_goes_on_with_its_job(
    decision: Result<MergeDecision, InternalError>,
    conflict: InternalError,
    step: Result<(Job, RetryStep<SaveOutcome, InternalError>), InternalError>,
)
    requires
        call_ensures(after_settling, (decision, conflict), step),
    ensures
        decision matches Ok(MergeDecision::Retry(job)) ==> (step matches Ok((next, what)) && next
            == job && what == RetryStep::<SaveOutcome, InternalError>::Retry(conflict)),
        decision matches Ok(MergeDecision::Done(job, outcome)) ==> (step matches Ok((next, what))
            && next == job && what == RetryStep::<SaveOutcome, InternalError>::Done(outcome)),
        decision matches Err(error) ==> (step matches Err(e) && e == error),
{
}

/// The decisions that read the clock are those of some moment.
pub proof fn law_decisions_read_the_clock(
    job: &mut Job,
    state: &Job,
    id: &Uuid,
    worker_id: &Uuid,
    worker: Uuid,
    end: ExecutionEnd,
    shutdown: bool,
    deadline_passed: bool,
    verdict: Result<ExecutionVerdict, InternalError>,
    picked: Result<PickedWork, InternalError>,
    policy: ConflictPolicy,
    saved: Job,
    decision: Result<MergeDecision, InternalError>,
    start: PassStart,
)
    ensures
        call_ensures(
            conclude_execution,
            (job, id, worker_id, end, shutdown, deadline_passed),
            verdict,
        ) ==> exists|now: int|
            is_dated(now) && #[trigger] concludes(
                old(job)@,
                final(job)@,
                verdict,
                *id,
                *worker_id,
                end,
                shutdown,
                deadline_passed,
                now,
            ),
        call_ensures(pick_work, (job, worker), picked) ==> exists|
            order: Seq<Uuid>,
            picked_at: int,
            started_at: int,
        |
            is_walk(order, old(job)@.tasks) && is_dated(picked_at) && is_dated(started_at)
                && #[trigger] picks_work(
                old(job)@,
                final(job)@,
                picked,
                worker,
                order,
                picked_at,
                started_at,
            ),
        call_ensures(settle_conflict, (policy, state, saved), decision) ==> exists|now: int|
            is_dated(now) && #[trigger] settles(decision, policy, state@, saved@, now),
        call_ensures(begin_pass, (state,), start) ==> start.reports_finished == is_over(state@)
            && exists|now: int| is_dated(now) && #[trigger] is_allowed(state@, start.step, now),
{
    if call_ensures(begin_pass, (state,), start) {
        let now = choose|now: int| #[trigger]
            is_dated(now) && answers_step(start.step, state@.iteration_step_at(now));
        law_allowed_step_is_unique(state@, now);
        assert(is_allowed(state@, start.step, now));
    }
}

} // verus!
