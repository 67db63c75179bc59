//! What a call on a job comes to, over every job it can be made on.

use std::collections::HashMap;

use vstd::prelude::*;

use crate::definition::{JobDefinition, JobDefinitionView};
use crate::error::{JobError, JobErrorView};
use crate::job::{IterationStep, Job, RestoredJob};
use crate::job_view::{
    completes_job, completes_task, fails_task, planned_tasks, records_failure, resolved_references,
    starts_task, tasks_by_id, IterationStepView, JobView,
};
use crate::status::{JobStatus, TaskRetry, TaskStatus};
use crate::task::{Task, TaskDefinition, TaskDefinitionView, TaskRef, TaskView, Uuid};
use crate::task_laws::{can_run, is_past, is_refusal, is_result, is_start};
use crate::time::{is_dated, is_delta, Moment};

verus! {

// Schedule

/// Whether the iteration is over.
pub open spec fn is_over(job: JobView) -> bool {
    job.status == JobStatus::Completed || job.status == JobStatus::Failed
}

/// Whether the job has run all the iterations it may.
pub open spec fn is_spent(job: JobView) -> bool {
    job.max_iterations is Some && job.iter_num >= job.max_iterations->Some_0
}

/// The next iteration is due the interval after the start of the one before, however that one ended and
/// whenever; at the moment that was set, where one was; and at once where there is neither. Nothing is
/// due while an iteration is open, once the budget is spent, or where the interval leads past the dates.
pub proof fn law_next_iteration_is_due_an_interval_after_the_start(job: &Job, due: Option<Moment>)
    requires
        call_ensures(Job::next_iteration_start_at, (job,), due),
    ensures
        !is_over(job@) || is_spent(job@) ==> due is None,
        is_over(job@) && !is_spent(job@) ==> {
            &&& job@.next_start_at is Some ==> due is Some && due->Some_0@
                == job@.next_start_at->Some_0
            &&& job@.next_start_at is None && job@.iteration_interval is None ==> due is Some
                && due->Some_0@ == job@.started_at
            &&& job@.next_start_at is None && job@.iteration_interval is Some ==> {
                let moment = job@.started_at + job@.iteration_interval->Some_0;
                &&& due is Some <==> is_delta(job@.iteration_interval->Some_0) && is_dated(moment)
                &&& due is Some ==> due->Some_0@ == moment
            }
        },
{
}

/// Whether `step` is what a job in this state allows at `now`: to go on with an open iteration; to stop
/// where the budget is spent; and otherwise to start the next iteration exactly from its moment on.
pub open spec fn is_allowed_step(job: JobView, step: IterationStepView, now: int) -> bool {
    &&& step is IterationInProgress <==> !is_over(job)
    &&& step is IterationBudgetSpent <==> is_over(job) && is_spent(job)
    &&& is_over(job) && !is_spent(job) && job.next_start_at is Some ==> if now
        >= job.next_start_at->Some_0 {
        step == IterationStepView::NextIterationReady
    } else {
        step == IterationStepView::NextIterationDueAt(job.next_start_at->Some_0)
    }
    &&& is_over(job) && !is_spent(job) && job.next_start_at is None && job.iteration_interval is None
        ==> if now >= job.started_at {
        step == IterationStepView::NextIterationReady
    } else {
        step == IterationStepView::NextIterationDueAt(job.started_at)
    }
    &&& is_over(job) && !is_spent(job) && job.next_start_at is None && job.iteration_interval is Some
        ==> {
        let moment = job.started_at + job.iteration_interval->Some_0;
        if !is_delta(job.iteration_interval->Some_0) || !is_dated(moment) {
            step == IterationStepView::NextIterationUnscheduled
        } else if now >= moment {
            step == IterationStepView::NextIterationReady
        } else {
            step == IterationStepView::NextIterationDueAt(moment)
        }
    }
}

/// The step a job allows follows from its state and the moment alone.
pub proof fn law_step_follows_from_the_schedule(job: &Job, now: Moment, step: IterationStep)
    requires
        call_ensures(Job::pick_iteration_step_at, (job, now), step),
    ensures
        is_allowed_step(job@, step@, now@),
{
}

/// A job that repeats by an interval is ready exactly from one interval after its start on, and told to
/// come back then before it, whether its iteration completed or failed.
pub proof fn law_interval_holds_whether_completed_or_failed(job: &Job, now: Moment, step: IterationStep)
    requires
        call_ensures(Job::pick_iteration_step_at, (job, now), step),
        is_over(job@),
        !is_spent(job@),
        job@.next_start_at is None,
        job@.iteration_interval is Some,
        is_delta(job@.iteration_interval->Some_0),
        is_dated(job@.started_at + job@.iteration_interval->Some_0),
    ensures
        step@ == IterationStepView::NextIterationReady <==> now@ - job@.started_at
            >= job@.iteration_interval->Some_0,
        now@ - job@.started_at < job@.iteration_interval->Some_0 ==> step@
            == IterationStepView::NextIterationDueAt(
            job@.started_at + job@.iteration_interval->Some_0,
        ),
{
}

/// The questions a job answers about its schedule agree with the step it allows.
pub proof fn law_schedule_questions_agree(job: &Job, now: Moment, answer: bool, step: IterationStep)
    ensures
        call_ensures(Job::is_ready_to_next_iteration_at, (job, now), answer) ==> exists|
            allowed: IterationStepView,
        |
            #[trigger] is_allowed_step(job@, allowed, now@) && answer == (allowed
                == IterationStepView::NextIterationReady),
        call_ensures(Job::is_processed, (job,), answer) ==> answer == is_over(job@),
        call_ensures(Job::is_ready_for_processing, (job,), answer) ==> answer == !is_over(job@),
        call_ensures(Job::is_iteration_limit_reached, (job,), answer) ==> answer == is_spent(job@),
        call_ensures(Job::pick_iteration_step, (job,), step) ==> exists|moment: int|
            is_dated(moment) && #[trigger] is_allowed_step(job@, step@, moment),
        call_ensures(Job::is_ready_to_next_iteration, (job,), answer) ==> exists|
            moment: int,
            allowed: IterationStepView,
        |
            is_dated(moment) && #[trigger] is_allowed_step(job@, allowed, moment) && answer == (
            allowed == IterationStepView::NextIterationReady),
{
    lemma_allowed_step(job@, now@);
    assert forall|moment: int| #[trigger] is_dated(moment) implies is_allowed_step(
        job@,
        job@.iteration_step_at(moment),
        moment,
    ) by {
        lemma_allowed_step(job@, moment);
    }
}

/// The step contracts name is the one the schedule allows.
proof fn lemma_allowed_step(job: JobView, now: int)
    ensures
        is_allowed_step(job, job.iteration_step_at(now), now),
{
}

/// A job allows one step at a moment.
pub proof fn law_allowed_step_is_unique(job: JobView, now: int)
    ensures
        forall|step: IterationStepView|
            #[trigger] is_allowed_step(job, step, now) <==> step == job.iteration_step_at(now),
{
    lemma_allowed_step(job, now);
}

// Planning

/// Whether `reference` names one of `count` initial tasks.
pub open spec fn names_initial(reference: TaskRef, count: int) -> bool {
    reference@ is Initial && reference@->position < count
}

/// Whether every reference of every definition names an initial task.
pub open spec fn is_plannable(definitions: Seq<TaskDefinitionView>) -> bool {
    forall|i: int, k: int|
        0 <= i < definitions.len() && 0 <= k < definitions[i].depends_on.len() ==> names_initial(
            #[trigger] definitions[i].depends_on[k],
            definitions.len() as int,
        )
}

/// Whether `task` is the one `definition` describes, as it is before anything happened to it.
pub open spec fn is_untouched(
    task: TaskView,
    definition: TaskDefinitionView,
    id: Uuid,
    worker: Uuid,
    creator: Option<Uuid>,
) -> bool {
    &&& task.id == id
    &&& task.code == definition.code
    &&& is_delta(definition.timeout) ==> task.timeout == definition.timeout
    &&& is_delta(definition.max_lifetime) ==> task.max_lifetime == definition.max_lifetime
    &&& task.max_attempts == definition.max_attempts
    &&& task.input == definition.input
    &&& task.tolerance == definition.tolerance
    &&& task.created_by_worker == worker
    &&& task.created_by_task == creator
    &&& task.processing_by_worker is None
    &&& task.started_at is None && task.completed_at is None
    &&& task.deadline_at is None && task.lifetime_deadline_at is None
    &&& task.attempt == 0
    &&& task.output.len() == 0 && task.resolution_reason.len() == 0
    &&& task.retry == TaskRetry::WhileBudgetLasts
    &&& task.depends_on.len() == definition.depends_on.len()
    &&& task.depends_on.len() == 0 ==> task.status == TaskStatus::Todo
    &&& task.depends_on.len() > 0 ==> task.status == TaskStatus::Blocked
}

/// Whether `tasks` are those `definitions` describe, each under its own identifier and waiting for the
/// identifiers of the tasks its definition names by position.
pub open spec fn is_plan(
    tasks: Map<Uuid, TaskView>,
    definitions: Seq<TaskDefinitionView>,
    ids: Seq<Uuid>,
    worker: Uuid,
) -> bool {
    &&& forall|id: Uuid| #[trigger] tasks.contains_key(id) <==> ids.contains(id)
    &&& forall|i: int|
        0 <= i < ids.len() ==> is_untouched(
            tasks[#[trigger] ids[i]],
            definitions[i],
            ids[i],
            worker,
            None,
        )
    &&& forall|i: int, k: int|
        0 <= i < ids.len() && 0 <= k < definitions[i].depends_on.len() ==> tasks[ids[i]].depends_on[k]
            == ids[(#[trigger] definitions[i].depends_on[k])@->position as int]
}

/// A list of references resolves exactly where each names an initial task, and to their identifiers.
proof fn lemma_resolved(references: Seq<TaskRef>, ids: Seq<Uuid>)
    ensures
        resolved_references(references, ids) is Ok <==> forall|k: int|
            0 <= k < references.len() ==> names_initial(
                #[trigger] references[k],
                ids.len() as int,
            ),
        resolved_references(references, ids) matches Ok(resolved) ==> {
            &&& resolved.len() == references.len()
            &&& forall|k: int|
                0 <= k < references.len() ==> resolved[k] == ids[(
                #[trigger] references[k])@->position as int]
        },
    decreases references.len(),
{
    if references.len() > 0 {
        let rest = references.drop_last();
        lemma_resolved(rest, ids);
        if resolved_references(references, ids) is Ok {
            assert forall|k: int| 0 <= k < references.len() implies names_initial(
                #[trigger] references[k],
                ids.len() as int,
            ) && resolved_references(references, ids)->Ok_0[k] == ids[references[k]@->position as int] by {
                if k < references.len() - 1 {
                    assert(rest[k] == references[k]);
                }
            }
        } else if forall|k: int|
            0 <= k < references.len() ==> names_initial(#[trigger] references[k], ids.len() as int) {
            assert forall|k: int| 0 <= k < rest.len() implies names_initial(
                #[trigger] rest[k],
                ids.len() as int,
            ) by {
                assert(rest[k] == references[k]);
            }
            assert(names_initial(references[references.len() - 1], ids.len() as int));
        }
    }
}

/// The tasks planned from the first `count` definitions.
proof fn lemma_planned(
    definitions: Seq<TaskDefinitionView>,
    ids: Seq<Uuid>,
    worker: Uuid,
    count: int,
)
    requires
        0 <= count <= definitions.len(),
        ids.len() == definitions.len(),
        ids.no_duplicates(),
    ensures
        planned_tasks(definitions, ids, worker, count) is Ok <==> forall|i: int, k: int|
            0 <= i < count && 0 <= k < definitions[i].depends_on.len() ==> names_initial(
                #[trigger] definitions[i].depends_on[k],
                definitions.len() as int,
            ),
        planned_tasks(definitions, ids, worker, count) matches Ok(tasks) ==> {
            &&& forall|id: Uuid| #[trigger]
                tasks.contains_key(id) <==> exists|i: int| 0 <= i < count && ids[i] == id
            &&& forall|i: int|
                0 <= i < count ==> is_untouched(
                    tasks[#[trigger] ids[i]],
                    definitions[i],
                    ids[i],
                    worker,
                    None,
                )
            &&& forall|i: int, k: int|
                0 <= i < count && 0 <= k < definitions[i].depends_on.len()
                    ==> tasks[ids[i]].depends_on[k] == ids[(
                #[trigger] definitions[i].depends_on[k])@->position as int]
        },
    decreases count,
{
    if count > 0 {
        lemma_planned(definitions, ids, worker, count - 1);
        lemma_resolved(definitions[count - 1].depends_on, ids);
        if planned_tasks(definitions, ids, worker, count) is Ok {
            let before = planned_tasks(definitions, ids, worker, count - 1)->Ok_0;
            let tasks = planned_tasks(definitions, ids, worker, count)->Ok_0;
            assert forall|id: Uuid| #[trigger]
                tasks.contains_key(id) <==> exists|i: int| 0 <= i < count && ids[i] == id by {
                if before.contains_key(id) {
                    let i = choose|i: int| 0 <= i < count - 1 && ids[i] == id;
                    assert(0 <= i < count && ids[i] == id);
                }
                if id == ids[count - 1] {
                    assert(0 <= count - 1 < count && ids[count - 1] == id);
                }
                if exists|i: int| 0 <= i < count && ids[i] == id {
                    let i = choose|i: int| 0 <= i < count && ids[i] == id;
                    if i < count - 1 {
                        assert(0 <= i < count - 1 && ids[i] == id);
                    }
                }
            }
            assert forall|i: int| 0 <= i < count implies is_untouched(
                tasks[#[trigger] ids[i]],
                definitions[i],
                ids[i],
                worker,
                None,
            ) by {
                if i < count - 1 {
                    assert(tasks[ids[i]] == before[ids[i]]);
                }
            }
            assert forall|i: int, k: int|
                0 <= i < count && 0 <= k
                    < definitions[i].depends_on.len() implies tasks[ids[i]].depends_on[k] == ids[(
            #[trigger] definitions[i].depends_on[k])@->position as int] by {
                if i < count - 1 {
                    assert(tasks[ids[i]] == before[ids[i]]);
                }
            }
        }
    }
}

/// A job is created exactly where its description can be planned, as the first and open iteration of
/// what the description says, with the tasks the description names and no history.
pub proof fn law_job_is_created_as_described(
    definition: &JobDefinition,
    metadata: HashMap<String, serde_json::Value>,
    worker: Uuid,
    id: Uuid,
    ids: &Vec<Uuid>,
    now: Moment,
    created: Result<Job, JobError>,
)
    requires
        call_ensures(Job::new_at, (definition, metadata, worker, id, ids, now), created),
        ids@.len() == definition@.initial_tasks.len(),
        ids@.no_duplicates(),
    ensures
        created is Ok <==> is_plannable(definition@.initial_tasks),
        created matches Err(e) ==> e@ is Other,
        created matches Ok(job) ==> {
            &&& is_plan(job@.tasks, definition@.initial_tasks, ids@, worker)
            &&& is_fresh_iteration(job@, definition@, worker, now@)
            &&& job@.id == id
            &&& job@.iter_num == 1
            &&& job@.metadata == metadata@
        },
{
    lemma_planned(
        definition@.initial_tasks,
        ids@,
        worker,
        definition@.initial_tasks.len() as int,
    );
    lemma_ids(ids@);
}

/// Whether the job is an open iteration begun at `now` by `worker` under the settings of `definition`,
/// with nothing behind it.
pub open spec fn is_fresh_iteration(
    job: JobView,
    definition: JobDefinitionView,
    worker: Uuid,
    now: int,
) -> bool {
    &&& job.status == JobStatus::Started
    &&& job.started_at == now
    &&& job.updated_by_worker_id == worker
    &&& job.running_at is None && job.completed_at is None && job.next_start_at is None
    &&& job.version.len() == 0
    &&& job.code == definition.code
    &&& job.max_iterations == definition.max_iterations
    &&& job.iteration_interval == definition.iteration_interval
    &&& job.task_limits == definition.task_limits
}

/// What is among the identifiers is at one of their places.
proof fn lemma_ids(ids: Seq<Uuid>)
    ensures
        forall|id: Uuid| #[trigger]
            ids.contains(id) <==> exists|i: int| 0 <= i < ids.len() && ids[i] == id,
{
}

/// The next iteration starts exactly where the schedule allows it and the description can be planned: as
/// the next number of the same job, open and planned afresh. A refused one leaves the job as it was.
pub proof fn law_next_iteration_starts_as_described(
    job: &mut Job,
    definition: &JobDefinition,
    worker: Uuid,
    ids: &Vec<Uuid>,
    now: Moment,
    moved: Result<(), JobError>,
)
    requires
        call_ensures(Job::next_iteration_at, (job, definition, worker, ids, now), moved),
        ids@.len() == definition@.initial_tasks.len(),
        ids@.no_duplicates(),
        old(job)@.iter_num < u64::MAX,
    ensures
        moved is Ok <==> is_allowed_step(old(job)@, IterationStepView::NextIterationReady, now@)
            && is_plannable(definition@.initial_tasks),
        moved matches Err(e) ==> e@ is Other && *final(job) == *old(job),
        moved is Ok ==> {
            &&& is_plan(final(job)@.tasks, definition@.initial_tasks, ids@, worker)
            &&& is_fresh_iteration(final(job)@, definition@, worker, now@)
            &&& final(job)@.id == old(job)@.id
            &&& final(job)@.iter_num == old(job)@.iter_num + 1
            &&& final(job)@.metadata == old(job)@.metadata
        },
{
    lemma_planned(
        definition@.initial_tasks,
        ids@,
        worker,
        definition@.initial_tasks.len() as int,
    );
    lemma_ids(ids@);
    lemma_allowed_step(old(job)@, now@);
}

/// A task is added exactly where its definition passes the job's limits and tolerates nothing idly,
/// whoever creates it is held and did not fail, and everything it waits for is held; as the task the
/// definition describes, beside the others.
pub proof fn law_task_is_added_as_described(
    job: &mut Job,
    definition: &TaskDefinition,
    worker: Uuid,
    creator: Option<Uuid>,
    id: Uuid,
    added: Result<Uuid, JobError>,
)
    requires
        call_ensures(Job::add_task_with_id, (job, definition, worker, creator, id), added),
    ensures
        ({
            let before = old(job)@;
            let after = final(job)@;
            &&& added is Ok <==> {
                &&& definition@.rejection(before.task_limits) is None
                &&& definition@.depends_on.len() > 0 || (!definition@.tolerance.allows_failed
                    && !definition@.tolerance.allows_skipped)
                &&& creator is Some ==> before.tasks.contains_key(creator->Some_0)
                    && before.tasks[creator->Some_0].status != TaskStatus::Failed
                &&& forall|k: int|
                    0 <= k < definition@.depends_on.len() ==> (
                    #[trigger] definition@.depends_on[k])@ is Created && before.tasks.contains_key(
                        definition@.depends_on[k]@->Created_0,
                    )
            }
            &&& added is Err ==> after == before
            &&& added is Ok ==> {
                &&& added->Ok_0 == id
                &&& after.tasks == before.tasks.insert(id, after.tasks[id])
                &&& after == (JobView { tasks: after.tasks, ..before })
                &&& is_untouched(after.tasks[id], definition@, id, worker, creator)
                &&& forall|k: int|
                    0 <= k < definition@.depends_on.len() ==> after.tasks[id].depends_on[k] == (
                    #[trigger] definition@.depends_on[k])@->Created_0
            }
        }),
{
    lemma_held_references(old(job)@, definition@.depends_on);
}

/// References of a runtime task are accepted exactly where each names a task the iteration holds.
proof fn lemma_held_references(job: JobView, references: Seq<TaskRef>)
    ensures
        job.reference_refusal(references) is None <==> forall|k: int|
            0 <= k < references.len() ==> (#[trigger] references[k])@ is Created
                && job.tasks.contains_key(references[k]@->Created_0),
    decreases references.len(),
{
    if references.len() > 0 {
        let rest = references.drop_last();
        lemma_held_references(job, rest);
        if job.reference_refusal(references) is None {
            assert forall|k: int| 0 <= k < references.len() implies (#[trigger] references[k])@ is Created
                && job.tasks.contains_key(references[k]@->Created_0) by {
                if k < references.len() - 1 {
                    assert(rest[k] == references[k]);
                }
            }
        } else if forall|k: int|
            0 <= k < references.len() ==> (#[trigger] references[k])@ is Created
                && job.tasks.contains_key(references[k]@->Created_0) {
            assert forall|k: int| 0 <= k < rest.len() implies (#[trigger] rest[k])@ is Created
                && job.tasks.contains_key(rest[k]@->Created_0) by {
                assert(rest[k] == references[k]);
            }
            assert(references[references.len() - 1]@ is Created);
        }
    }
}

/// A job that is rebuilt has every field it is rebuilt from, and its tasks under their identifiers.
pub proof fn law_restored_job_is_the_stored_one(fields: RestoredJob, job: Job)
    requires
        call_ensures(Job::restore, (fields,), job),
    ensures
        job@.id == fields.id && job@.code == fields.code@ && job@.iter_num == fields.iter_num,
        job@.status == fields.status && job@.version == fields.version@,
        job@.updated_by_worker_id == fields.updated_by_worker_id,
        job@.started_at == fields.started_at@,
        fields.running_at matches Some(moment) ==> job@.running_at == Some(moment@),
        fields.running_at is None ==> job@.running_at is None,
        fields.completed_at matches Some(moment) ==> job@.completed_at == Some(moment@),
        fields.completed_at is None ==> job@.completed_at is None,
        fields.next_start_at matches Some(moment) ==> job@.next_start_at == Some(moment@),
        fields.next_start_at is None ==> job@.next_start_at is None,
        job@.metadata == fields.metadata@,
        job@.max_iterations == fields.max_iterations,
        fields.iteration_interval matches Some(span) ==> job@.iteration_interval == Some(span@),
        fields.iteration_interval is None ==> job@.iteration_interval is None,
        job@.task_limits == fields.task_limits,
        forall|id: Uuid| #[trigger]
            job@.tasks.contains_key(id) <==> exists|i: int|
                0 <= i < fields.tasks@.len() && (#[trigger] fields.tasks@[i])@.id == id,
        forall|i: int|
            #![trigger fields.tasks@[i]]
            0 <= i < fields.tasks@.len() && (forall|j: int|
                0 <= j < fields.tasks@.len() && j != i ==> (#[trigger] fields.tasks@[j])@.id
                    != fields.tasks@[i]@.id) ==> job@.tasks[fields.tasks@[i]@.id]
                == fields.tasks@[i]@,
{
    lemma_tasks_by_id(fields.tasks@);
}

/// The tasks of a list are filed under their identifiers, each of its own under its own.
proof fn lemma_tasks_by_id(tasks: Seq<Task>)
    ensures
        forall|id: Uuid| #[trigger]
            tasks_by_id(tasks).contains_key(id) <==> exists|i: int|
                0 <= i < tasks.len() && (#[trigger] tasks[i])@.id == id,
        forall|i: int|
            #![trigger tasks[i]]
            0 <= i < tasks.len() && (forall|j: int|
                0 <= j < tasks.len() && j != i ==> (#[trigger] tasks[j])@.id != tasks[i]@.id)
                ==> tasks_by_id(tasks)[tasks[i]@.id] == tasks[i]@,
    decreases tasks.len(),
{
    if tasks.len() > 0 {
        let rest = tasks.drop_last();
        lemma_tasks_by_id(rest);
        assert forall|id: Uuid| #[trigger]
            tasks_by_id(tasks).contains_key(id) <==> exists|i: int|
                0 <= i < tasks.len() && (#[trigger] tasks[i])@.id == id by {
            if tasks_by_id(rest).contains_key(id) {
                let i = choose|i: int| 0 <= i < rest.len() && (#[trigger] rest[i])@.id == id;
                assert(tasks[i]@.id == id);
            }
            if id == tasks.last()@.id {
                assert(tasks[tasks.len() - 1]@.id == id);
            }
            if exists|i: int| 0 <= i < tasks.len() && (#[trigger] tasks[i])@.id == id {
                let i = choose|i: int| 0 <= i < tasks.len() && (#[trigger] tasks[i])@.id == id;
                if i < tasks.len() - 1 {
                    assert(rest[i]@.id == id);
                }
            }
        }
        assert forall|i: int|
            #![trigger tasks[i]]
            0 <= i < tasks.len() && (forall|j: int|
                0 <= j < tasks.len() && j != i ==> (#[trigger] tasks[j])@.id
                    != tasks[i]@.id) implies tasks_by_id(tasks)[tasks[i]@.id] == tasks[i]@ by {
            if i < tasks.len() - 1 {
                assert(rest[i] == tasks[i]);
                assert(tasks[tasks.len() - 1]@.id != tasks[i]@.id);
                assert forall|j: int| 0 <= j < rest.len() && j != i implies (
                #[trigger] rest[j])@.id != rest[i]@.id by {
                    assert(tasks[j]@.id != tasks[i]@.id);
                }
            }
        }
    }
}

// Tasks of a job

/// Starting a task of a job starts that task, names the worker, and touches nothing else; a task the job
/// does not hold is not found, and a refused start changes nothing.
pub proof fn law_job_starts_the_task_alone(
    job: &mut Job,
    id: &Uuid,
    worker: Uuid,
    now: Moment,
    started: Result<(), JobError>,
)
    requires
        call_ensures(Job::start_task_at, (job, id, worker, now), started),
    ensures
        ({
            let before = old(job)@;
            let after = final(job)@;
            let task = before.tasks[*id];
            &&& started is Ok <==> before.tasks.contains_key(*id) && can_run(task, now@) && is_dated(
                now@ + task.timeout,
            ) && (task.lifetime_deadline_at is Some || is_dated(now@ + task.max_lifetime))
            &&& started is Err ==> after == before
            &&& (started matches Err(e) && e@ == JobErrorView::TaskNotFound)
                <==> !before.tasks.contains_key(*id)
            &&& (started matches Err(e) && e@ == JobErrorView::TaskWorkerMismatch)
                <==> before.tasks.contains_key(*id) && !can_run(task, now@)
                && task.processing_by_worker is Some && task.processing_by_worker != Some(worker)
            &&& started is Ok ==> {
                &&& is_start(task, after.tasks[*id], worker, now@)
                &&& after.tasks == before.tasks.insert(*id, after.tasks[*id])
                &&& after == (JobView { tasks: after.tasks, updated_by_worker_id: worker, ..before })
            }
        }),
{
}

/// Completing a task of a job stores the result exactly where it fits and the task runs within its
/// lifetime, and touches nothing else.
pub proof fn law_job_completes_the_task_alone(
    job: &mut Job,
    id: &Uuid,
    output: Vec<u8>,
    now: Moment,
    completed: Result<(), JobError>,
)
    requires
        call_ensures(Job::complete_task_at, (job, id, output, now), completed),
    ensures
        ({
            let before = old(job)@;
            let after = final(job)@;
            let task = before.tasks[*id];
            &&& completed is Ok <==> output@.len() <= before.task_limits.max_output_bytes
                && before.tasks.contains_key(*id) && task.status == TaskStatus::Started && !is_past(
                task.lifetime_deadline_at,
                now@,
            )
            &&& completed is Err ==> after == before
            &&& completed is Ok ==> {
                &&& is_result(task, after.tasks[*id], output@, now@)
                &&& after.tasks == before.tasks.insert(*id, after.tasks[*id])
                &&& after == (JobView { tasks: after.tasks, ..before })
            }
        }),
{
}

/// Whether `after` is `before` with the task failed for a reason that may be repeated, and without the
/// tasks its execution created; every other task and everything else is as it was.
pub open spec fn is_rolled_back(
    before: JobView,
    after: JobView,
    id: Uuid,
    reason: Seq<char>,
    now: int,
) -> bool {
    &&& before.tasks[id].created_by_task != Some(id) ==> after.tasks.contains_key(id) && is_refusal(
        before.tasks[id],
        after.tasks[id],
        reason,
        TaskRetry::WhileBudgetLasts,
        now,
    )
    &&& forall|other: Uuid|
        other != id ==> (#[trigger] after.tasks.contains_key(other) <==> before.tasks.contains_key(
            other,
        ) && before.tasks[other].created_by_task != Some(id))
    &&& forall|other: Uuid|
        other != id && #[trigger] after.tasks.contains_key(other) ==> after.tasks[other]
            == before.tasks[other]
    &&& after == (JobView { tasks: after.tasks, ..before })
}

/// Failing a task of a job is possible exactly while it runs; it leaves the task to be repeated while
/// its attempts and lifetime last, and drops what its execution created.
pub proof fn law_job_fails_the_task_and_its_children(
    job: &mut Job,
    id: &Uuid,
    reason: &str,
    now: Moment,
    failed: Result<usize, JobError>,
)
    requires
        call_ensures(Job::fail_task_at, (job, id, reason, now), failed),
    ensures
        ({
            let before = old(job)@;
            let after = final(job)@;
            &&& failed is Ok <==> before.tasks.contains_key(*id) && before.tasks[*id].status
                == TaskStatus::Started
            &&& failed is Err ==> after == before
            &&& failed matches Ok(dropped) ==> is_rolled_back(before, after, *id, reason@, now@)
                && dropped == before.tasks.dom().len() - after.tasks.dom().len()
        }),
{
}

/// An execution that ended in failure fails its task in the same way, unless the executor resolved the
/// task itself: that resolution stands.
pub proof fn law_failed_execution_fails_its_task(
    job: &mut Job,
    id: &Uuid,
    reason: &str,
    now: Moment,
    recorded: Result<usize, JobError>,
)
    requires
        call_ensures(Job::record_task_execution_failure_at, (job, id, reason, now), recorded),
    ensures
        ({
            let before = old(job)@;
            let after = final(job)@;
            let status = before.tasks[*id].status;
            let resolved = status == TaskStatus::Completed || status == TaskStatus::Failed
                || status is Skipped;
            &&& recorded is Ok <==> before.tasks.contains_key(*id) && (resolved || status
                == TaskStatus::Started)
            &&& recorded is Err ==> after == before
            &&& recorded is Ok && resolved ==> after == before && recorded->Ok_0 == 0
            &&& recorded is Ok && !resolved ==> is_rolled_back(before, after, *id, reason@, now@)
        }),
{
}

/// A task whose execution ended in failure can be started again, at every moment up to the end of its
/// lifetime, exactly where it has spent fewer attempts than it has.
pub proof fn law_failed_execution_is_repeated_while_the_budget_lasts(
    job: &mut Job,
    id: &Uuid,
    reason: &str,
    now: Moment,
    recorded: Result<usize, JobError>,
    later: int,
)
    requires
        call_ensures(Job::record_task_execution_failure_at, (job, id, reason, now), recorded),
        recorded is Ok,
        old(job)@.tasks[*id].status == TaskStatus::Started,
        old(job)@.tasks[*id].created_by_task != Some(*id),
    ensures
        final(job)@.tasks.contains_key(*id),
        can_run(final(job)@.tasks[*id], later) <==> old(job)@.tasks[*id].attempt < old(
            job,
        )@.tasks[*id].max_attempts && !is_past(old(job)@.tasks[*id].lifetime_deadline_at, later),
{
}

/// The calls that read the clock do what the calls at some moment do.
pub proof fn law_job_calls_read_the_clock(
    job: &mut Job,
    id: &Uuid,
    worker: Uuid,
    worker_id: &Uuid,
    output: Vec<u8>,
    reason: &str,
    done: Result<(), JobError>,
    dropped: Result<usize, JobError>,
    ended: Result<bool, JobError>,
)
    ensures
        call_ensures(Job::start_task, (job, id, worker), done) ==> exists|now: int|
            is_dated(now) && #[trigger] starts_task(
                old(job)@,
                final(job)@,
                done,
                *id,
                worker,
                now,
            ),
        call_ensures(Job::complete_task, (job, id, output), done) ==> exists|now: int|
            is_dated(now) && #[trigger] completes_task(
                old(job)@,
                final(job)@,
                done,
                *id,
                output@,
                now,
            ),
        call_ensures(Job::fail_task, (job, id, reason), dropped) ==> exists|now: int|
            is_dated(now) && #[trigger] fails_task(
                old(job)@,
                final(job)@,
                dropped,
                *id,
                reason@,
                now,
            ),
        call_ensures(Job::record_task_execution_failure, (job, id, reason), dropped) ==> exists|
            now: int,
        |
            is_dated(now) && #[trigger] records_failure(
                old(job)@,
                final(job)@,
                dropped,
                *id,
                reason@,
                now,
            ),
        call_ensures(Job::try_to_complete, (job, worker_id), ended) ==> exists|now: int|
            is_dated(now) && #[trigger] completes_job(
                old(job)@,
                final(job)@,
                ended,
                *worker_id,
                now,
            ),
{
}

} // verus!
