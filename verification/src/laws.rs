//! What holds of tasks, jobs and pools as a whole, whatever calls are made on them.

use vstd::prelude::*;

use crate::definition::{
    definitions_of, dependency_edges, description, first_refusal, first_refusal_in, is_acyclic,
    own_dependencies, position_of, position_refusal, with_lists, JobDefinitionId, JobDefinitionView,
    TaskLimits,
};
use crate::error::{JobError, JobErrorView};
use crate::execution::{closed_by_worker, executed, failure_text, ConflictPolicy, ExecutionEnd, SaveOutcome};
use crate::executors::ExecutorId;
use crate::graph::{is_ranking, law_acyclic_graph_is_orderable};
use crate::job::{lemma_branches_given_up, lemma_given_up_fit, lemma_nothing_given_up};
use crate::job_view::{
    created_ids, is_walk, moves_on, outlived_lifetime_text, planned_tasks, resolved_references,
    IterationStepView, JobView, TaskPickup, TaskSettlement,
};
use crate::manager::later_iteration;
use crate::outcome::TaskOutcome;
use crate::poll::{time_until, JobPassOutcome, PollPlanView, WorkerConfigView};
use crate::status::{JobStatus, SkipCause, TaskRetry, TaskStatus};
use crate::task::{
    DependencyVerdict, TaskAvailability, TaskDefinitionView, TaskRef, TaskView, Uuid,
};
use crate::time::is_dated;

verus! {

// Tasks

/// The end of a task's lifetime is placed by its first start and never moves: every later start, by
/// whichever worker, leaves it where it is.
pub proof fn law_lifetime_runs_from_the_first_start(
    task: TaskView,
    worker: Uuid,
    now: int,
    other: Uuid,
    later: int,
)
    ensures
        task.lifetime_deadline_at is None ==> task.started(worker, now).lifetime_deadline_at
            == Some(now + task.max_lifetime),
        task.started(worker, now).started(other, later).lifetime_deadline_at == task.started(
            worker,
            now,
        ).lifetime_deadline_at,
{
}

/// Every deadline a task is started with is capped by the end of its lifetime, and reaches no further
/// than its timeout.
pub proof fn law_deadline_is_capped_by_the_lifetime(task: TaskView, worker: Uuid, now: int)
    ensures
        ({
            let started = task.started(worker, now);
            &&& started.deadline_at matches Some(deadline) && deadline
                <= started.lifetime_deadline_at->Some_0 && deadline <= now + task.timeout
        }),
{
}

/// A takeover spends no attempt; every other start spends one.
pub proof fn law_only_a_takeover_is_free(task: TaskView, worker: Uuid, now: int)
    ensures
        task.started(worker, now).attempt == task.attempt + if task.status == TaskStatus::Started {
            0int
        } else {
            1int
        },
{
}

/// Whether a task has spent no more attempts than it has, with one to spare while it was never started.
pub open spec fn is_within_budget(task: TaskView) -> bool {
    &&& task.attempt <= task.max_attempts
    &&& task.status == TaskStatus::Todo || task.status == TaskStatus::Blocked ==> task.attempt
        < task.max_attempts
}

/// Attempts never exceed the budget: a task starts out within it, and nothing it goes through takes it
/// beyond.
pub proof fn law_attempts_stay_within_the_budget(
    task: TaskView,
    definition: TaskDefinitionView,
    limits: TaskLimits,
    id: Uuid,
    worker: Uuid,
    creator: Option<Uuid>,
    depends_on: Seq<Uuid>,
    output: Seq<u8>,
    reason: Seq<char>,
    cause: SkipCause,
    retry: TaskRetry,
    now: int,
)
    requires
        definition.max_attempts >= 0,
    ensures
        definition.rejection(limits) is None ==> is_within_budget(
            TaskView::fresh(id, worker, creator, definition, depends_on),
        ),
        is_within_budget(task) ==> {
            &&& is_within_budget(task.unblocked())
            &&& task.start_refusal(worker, now) is None ==> is_within_budget(
                task.started(worker, now),
            )
            &&& is_within_budget(task.completed(output, now))
            &&& is_within_budget(task.skipped(reason, cause, now))
            &&& is_within_budget(task.failed(reason, retry, now))
        },
{
}

/// The lifetime is an absolute bound: past it a running task is to be failed whatever its deadline
/// says, nobody can start it, and neither a result nor a decision to skip it is accepted.
pub proof fn law_nothing_is_accepted_past_the_lifetime(task: TaskView, worker: Uuid, now: int)
    requires
        task.status == TaskStatus::Started,
        task.is_lifetime_expired_at(now),
    ensures
        task.availability_at(now) == TaskAvailability::ExpiredPastLifetime,
        task.start_refusal(worker, now) is Some,
        task.completion_refusal(now) is Some,
        task.skip_refusal(now) is Some,
        task.failure_refusal() is None,
{
}

/// A task failed for outliving its lifetime is failed for good, with whatever attempts to spare.
pub proof fn law_outlived_task_is_terminal(task: TaskView, now: int)
    requires
        task.availability_at(now) == TaskAvailability::ExpiredPastLifetime,
    ensures
        task.failed(
            outlived_lifetime_text(task),
            TaskRetry::WhileBudgetLasts,
            now,
        ).is_terminally_failed_at(now),
{
}

/// A task that failed for good stays so: at no later moment can it be started.
pub proof fn law_terminal_failure_lasts(task: TaskView, worker: Uuid, now: int, later: int)
    requires
        task.is_terminally_failed_at(now),
        now <= later,
    ensures
        task.is_terminally_failed_at(later),
        task.availability_at(later) == TaskAvailability::Unavailable,
        task.start_refusal(worker, later) is Some,
{
}

/// A completed or skipped task is never executed again: at no moment can it be started, completed,
/// skipped or failed.
pub proof fn law_completed_and_skipped_tasks_are_final(task: TaskView, worker: Uuid, now: int)
    requires
        task.status == TaskStatus::Completed || task.status is Skipped,
    ensures
        task.availability_at(now) == TaskAvailability::Unavailable,
        task.start_refusal(worker, now) is Some,
        task.completion_refusal(now) is Some,
        task.skip_refusal(now) is Some,
        task.failure_refusal() is Some,
{
}

/// A refusal the executor declared final ends the task at once, whatever is left of either limit.
pub proof fn law_final_refusal_is_terminal(task: TaskView, reason: Seq<char>, now: int, later: int)
    ensures
        task.failed(reason, TaskRetry::Never, now).is_terminally_failed_at(later),
{
}

/// A refusal that may be repeated leaves the task pickable exactly while an attempt and lifetime are
/// left.
pub proof fn law_repeatable_refusal_is_retried(
    task: TaskView,
    reason: Seq<char>,
    now: int,
    later: int,
)
    ensures
        (task.failed(reason, TaskRetry::WhileBudgetLasts, now).availability_at(later)
            == TaskAvailability::Pickable) <==> task.attempt < task.max_attempts
            && !task.is_lifetime_expired_at(later),
{
}

/// Ownership is exclusive until the deadline: another worker that tries to start a running task before
/// then is told that the task is not its own.
pub proof fn law_running_task_has_one_owner(
    task: TaskView,
    worker: Uuid,
    now: int,
    other: Uuid,
    later: int,
)
    requires
        worker != other,
        later <= task.started(worker, now).deadline_at->Some_0,
    ensures
        task.started(worker, now).start_refusal(other, later) == Some(
            JobErrorView::TaskWorkerMismatch,
        ),
{
}

/// Once the deadline passes, any worker may take a running task over until its lifetime ends, as far
/// as dates reach.
pub proof fn law_expired_task_can_be_taken_over(task: TaskView, other: Uuid, later: int)
    requires
        task.status == TaskStatus::Started,
        task.lifetime_deadline_at is Some,
        task.is_expired_at(later),
        !task.is_lifetime_expired_at(later),
        is_dated(later + task.timeout),
    ensures
        task.start_refusal(other, later) is None,
        task.started(other, later).processing_by_worker == Some(other),
{
}

/// A dependency that failed with attempts and lifetime to spare is coming back, and is waited for
/// whatever is tolerated.
pub proof fn law_retried_dependency_is_waited_for(task: TaskView, dependency: TaskView, now: int)
    requires
        dependency.status == TaskStatus::Failed,
        !dependency.is_terminally_failed_at(now),
    ensures
        task.judgement(dependency, now) == DependencyVerdict::Blocked,
{
}

/// What is handed down a graph of skipped tasks is never the decision itself: a task put out because
/// of another decided nothing, and only a failure travels unchanged.
pub proof fn law_decisions_are_not_inherited(task: TaskView, dependency: TaskView, now: int)
    requires
        task.judgement(dependency, now) is Skipped,
    ensures
        task.judgement(dependency, now) != DependencyVerdict::Skipped(SkipCause::ExecutorDecision),
        dependency.status == TaskStatus::Skipped(SkipCause::FailedDependency) ==> task.judgement(
            dependency,
            now,
        ) == DependencyVerdict::Skipped(SkipCause::FailedDependency),
        dependency.status == TaskStatus::Skipped(SkipCause::ExecutorDecision) ==> task.judgement(
            dependency,
            now,
        ) == DependencyVerdict::Skipped(SkipCause::SkippedDependency),
{
}

// Iterations

/// A job at its iteration limit starts no further iteration, however long ago the moment for one
/// passed.
pub proof fn law_spent_budget_outranks_a_due_moment(
    job: JobView,
    definition: JobDefinitionView,
    ids: Seq<Uuid>,
    worker: Uuid,
    now: int,
)
    requires
        job.is_processed(),
        job.is_iteration_limit_reached(),
    ensures
        job.iteration_step_at(now) == IterationStepView::IterationBudgetSpent,
        job.next_iteration_refusal(definition, ids, worker, now) is Some,
{
}

/// A moment set for the next start takes precedence over the interval in both directions: the next
/// iteration is ready exactly from that moment on.
pub proof fn law_set_moment_outranks_the_interval(job: JobView, moment: int, now: int)
    requires
        job.is_processed(),
        !job.is_iteration_limit_reached(),
    ensures
        (JobView { next_start_at: Some(moment), ..job }).iteration_step_at(now) == if now >= moment {
            IterationStepView::NextIterationReady
        } else {
            IterationStepView::NextIterationDueAt(moment)
        },
{
}

/// The interval is counted from the start of an iteration, so a long iteration does not extend the
/// schedule: when the iteration ended plays no part.
pub proof fn law_schedule_anchors_on_the_start(job: JobView, ended: Option<int>, now: int)
    ensures
        (JobView { completed_at: ended, ..job }).iteration_step_at(now) == job.iteration_step_at(
            now,
        ),
{
}

/// The next iteration goes by the same identifier and metadata under the next number, is open, and
/// remembers nothing of the schedule of the one before; and an open iteration has none after it.
pub proof fn law_next_iteration_starts_afresh(
    job: JobView,
    definition: JobDefinitionView,
    ids: Seq<Uuid>,
    worker: Uuid,
    tasks: Map<Uuid, TaskView>,
    now: int,
)
    ensures
        ({
            let next = job.next(definition, worker, tasks, now);
            &&& next.id == job.id
            &&& next.metadata == job.metadata
            &&& job.iter_num < u64::MAX ==> next.iter_num == job.iter_num + 1
            &&& !next.is_processed()
            &&& next.next_start_at is None
            &&& next.started_at == now
        }),
        !job.is_processed() ==> job.next_iteration_refusal(definition, ids, worker, now) is Some,
{
}

/// A job that is not ready for its next iteration - still open, its budget spent, not due yet or
/// unscheduled - refuses it in words and is left as it was, whatever the number of its iteration; and
/// so does one whose description cannot be planned.
pub proof fn law_refused_iteration_leaves_the_job(
    before: JobView,
    after: JobView,
    moved: Result<(), JobError>,
    definition: JobDefinitionView,
    worker: Uuid,
    ids: Seq<Uuid>,
    now: int,
)
    requires
        moves_on(before, after, moved, definition, worker, ids, now),
    ensures
        before.iteration_step_at(now) != IterationStepView::NextIterationReady ==> moved is Err,
        moved matches Err(e) ==> e@ is Other && after == before,
{
}

/// Every status a pick or a merge leaves a job in is one its status leads to, or the one it had. A pick
/// that both opens and ends an iteration takes the two steps at once.
pub proof fn law_operations_follow_the_status_rules(
    job: JobView,
    worker_job: JobView,
    worker: Uuid,
    order: Seq<Uuid>,
    id: Uuid,
    now: int,
)
    requires
        is_walk(order, job.tasks),
    ensures
        ({
            let (after, _) = job.picked(worker, order, now);
            after.status == job.status || job.status.leads_to(after.status) || (job.status
                == JobStatus::Started && after.is_processed())
        }),
        job.picked_merge_refusal(worker_job, worker, id) is None ==> job.status.leads_to(
            job.merged_with_picked(worker_job, worker, id).status,
        ),
        job.processed_merge_refusal(worker_job, worker, id) is None ==> job.status.leads_to(
            job.merged_with_processed(worker_job, worker).status,
        ),
{
    lemma_concluded(job, worker, order, now);
}

/// A worker that found nothing to start on its first walk goes on with a job that differs in its tasks
/// alone from the one it took into work.
proof fn lemma_concluded(job: JobView, worker: Uuid, order: Seq<Uuid>, now: int)
    ensures
        ({
            let open = if job.status == JobStatus::Running {
                job
            } else {
                job.working(worker, now)
            };
            let left = open.lifetimes_ended(
                order.take(open.walk_end(order, now, 0)),
                now,
            ).branches_given_up(now);
            left == (JobView { tasks: left.tasks, ..open })
        }),
{
    let open = if job.status == JobStatus::Running {
        job
    } else {
        job.working(worker, now)
    };
    let ended = open.lifetimes_ended(order.take(open.walk_end(order, now, 0)), now);
    lemma_given_up_fit(ended, ended.tasks.dom().len(), now);
}

// Picking

/// The order a walk happens to take decides which task is found ready, never whether one is: where one
/// walk finds a task, every walk does, and where none is found, every walk leaves the same job with the
/// same answer.
pub proof fn law_every_walk_reaches_the_same_verdict(
    job: JobView,
    worker: Uuid,
    order: Seq<Uuid>,
    other: Seq<Uuid>,
    now: int,
)
    requires
        is_walk(order, job.tasks),
        is_walk(other, job.tasks),
    ensures
        (job.picked(worker, order, now).1 matches Ok(TaskPickup::Ready(_))) <==> (job.picked(
            worker,
            other,
            now,
        ).1 matches Ok(TaskPickup::Ready(_))),
        !(job.picked(worker, order, now).1 matches Ok(TaskPickup::Ready(_))) ==> job.picked(
            worker,
            order,
            now,
        ) == job.picked(worker, other, now),
{
    if !job.is_processed() {
        let open = if job.status == JobStatus::Running {
            job
        } else {
            job.working(worker, now)
        };
        lemma_walk_finds_a_decisive_task(open, order, now);
        lemma_walk_finds_a_decisive_task(open, other, now);
        if open.walk_end(order, now, 0) == order.len() {
            assert(order.take(order.len() as int) =~= order);
            assert(other.take(other.len() as int) =~= other);
            assert forall|id: Uuid| open.tasks.contains_key(id) implies order.contains(id)
                && other.contains(id) by {
                assert(order.to_set().contains(id));
                assert(other.to_set().contains(id));
            }
            let ended = open.lifetimes_ended(order, now);
            assert(ended.tasks =~= open.lifetimes_ended(other, now).tasks);
            assert(ended.tasks.dom() =~= open.tasks.dom());
            lemma_given_up_fit(ended, ended.tasks.dom().len(), now);
            let left = ended.branches_given_up(now);
            lemma_walk_finds_a_decisive_task(left, order, now);
            lemma_walk_finds_a_decisive_task(left, other, now);
        }
    }
}

/// A walk ends before its end exactly where some task decides it.
proof fn lemma_walk_finds_a_decisive_task(job: JobView, order: Seq<Uuid>, now: int)
    requires
        is_walk(order, job.tasks),
    ensures
        0 <= job.walk_end(order, now, 0) <= order.len(),
        job.walk_end(order, now, 0) < order.len() <==> has_decisive_task(job, now),
        job.walk_end(order, now, 0) < order.len() ==> job.is_decisive(
            order[job.walk_end(order, now, 0)],
            now,
        ) && job.tasks.contains_key(order[job.walk_end(order, now, 0)]),
{
    crate::job::lemma_walk_end(job, order, now, 0);
    crate::job::lemma_walk_covers(order, job.tasks);
    let end = job.walk_end(order, now, 0);
    if has_decisive_task(job, now) {
        let id = choose|id: Uuid| #[trigger]
            job.tasks.contains_key(id) && job.is_decisive(id, now);
        assert(order.contains(id));
        let i = choose|i: int| 0 <= i < order.len() && order[i] == id;
        if end == order.len() {
            assert(!job.is_decisive(order[i], now));
        }
    }
}

/// Whether a worker finds something to start.
pub open spec fn has_decisive_task(job: JobView, now: int) -> bool {
    exists|id: Uuid| #[trigger] job.tasks.contains_key(id) && job.is_decisive(id, now)
}

/// A task that is found ready is one the job holds and whoever found it can start at once; only a
/// deadline no date can name keeps it from that.
pub proof fn law_ready_task_can_be_started(
    job: JobView,
    worker: Uuid,
    order: Seq<Uuid>,
    now: int,
)
    requires
        is_walk(order, job.tasks),
    ensures
        job.picked(worker, order, now).1 matches Ok(TaskPickup::Ready(id)) ==> ({
            let (after, _) = job.picked(worker, order, now);
            &&& after.tasks.contains_key(id)
            &&& after.tasks[id].availability_at(now) == TaskAvailability::Pickable
            &&& is_dated(now + after.tasks[id].max_lifetime) && is_dated(
                now + after.tasks[id].timeout,
            ) ==> after.start_refusal(id, worker, now) is None
        }),
{
    if !job.is_processed() {
        let open = if job.status == JobStatus::Running {
            job
        } else {
            job.working(worker, now)
        };
        lemma_walk_finds_a_decisive_task(open, order, now);
        let end = open.walk_end(order, now, 0);
        if end < order.len() {
            let id = order[end];
            assert(!order.take(end).contains(id) || open.tasks[id].availability_at(now)
                != TaskAvailability::ExpiredPastLifetime);
        } else {
            let ended = open.lifetimes_ended(order.take(end), now);
            assert(ended.tasks.dom() =~= open.tasks.dom());
            lemma_given_up_fit(ended, ended.tasks.dom().len(), now);
            lemma_walk_finds_a_decisive_task(ended.branches_given_up(now), order, now);
        }
    }
}

/// An iteration ends as failed only where no task is in flight and a failure is left that nothing
/// answers for; until then it goes on.
pub proof fn law_iteration_fails_only_when_nothing_can_run(
    job: JobView,
    worker: Uuid,
    order: Seq<Uuid>,
    now: int,
)
    requires
        is_walk(order, job.tasks),
    ensures
        job.picked(worker, order, now).1 == Ok::<TaskPickup, JobErrorView>(TaskPickup::Exhausted)
            ==> ({
            let (after, _) = job.picked(worker, order, now);
            &&& after.status == JobStatus::Failed
            &&& !after.has_started_task()
            &&& after.has_unhandled_failure_at(now)
            &&& !has_decisive_task(job, now)
        }),
{
    if !job.is_processed() {
        let open = if job.status == JobStatus::Running {
            job
        } else {
            job.working(worker, now)
        };
        lemma_walk_finds_a_decisive_task(open, order, now);
        let outlived = open.lifetimes_ended(order.take(open.walk_end(order, now, 0)), now);
        lemma_given_up_fit(outlived, outlived.tasks.dom().len(), now);
        let ended = outlived.branches_given_up(now);
        let after = ended.ended(JobStatus::Failed, worker, now);
        assert(after.tasks == ended.tasks);
        if has_decisive_task(job, now) {
            let id = choose|id: Uuid| #[trigger]
                job.tasks.contains_key(id) && job.is_decisive(id, now);
            assert(open.tasks.contains_key(id) && open.is_decisive(id, now));
        }
        if ended.has_unhandled_failure_at(now) {
            let id = choose|id: Uuid| #[trigger]
                ended.tasks.contains_key(id) && ended.settlement_at(id, now)
                    == TaskSettlement::Failure;
            assert(after.tasks.contains_key(id));
            assert(after.is_answered_for(id) == ended.is_answered_for(id));
        }
        if after.has_started_task() {
            let id = choose|id: Uuid| #[trigger]
                after.tasks.contains_key(id) && after.tasks[id].status == TaskStatus::Started;
            assert(ended.tasks.contains_key(id));
        }
    }
}

/// A failure for good ends its iteration as failed once nothing is in flight and nothing can be
/// started, unless a dependent that declared it survives one resolved on its own.
pub proof fn law_unanswered_failure_ends_the_iteration(
    job: JobView,
    id: Uuid,
    worker: Uuid,
    now: int,
)
    requires
        job.tasks.contains_key(id),
        job.tasks[id].is_terminally_failed_at(now),
        forall|dependent: Uuid|
            job.tasks.contains_key(dependent) && job.tasks[dependent].tolerance.allows_failed
                && job.tasks[dependent].depends_on.contains(id) ==> !(
            #[trigger] job.tasks[dependent]).is_resolved_on_its_own(),
        !job.has_started_task(),
    ensures
        job.verdict(worker, now) == (
            job.ended(JobStatus::Failed, worker, now),
            Ok::<TaskPickup, JobErrorView>(TaskPickup::Exhausted),
        ),
{
    assert(job.settlement_at(id, now) == TaskSettlement::Failure);
}

/// A task put out because a dependency failed is that failure surfacing: once nothing is in flight and
/// nothing can be started, the iteration ends as failed, whatever the task's dependents tolerate.
pub proof fn law_surfacing_failure_ends_the_iteration(
    job: JobView,
    id: Uuid,
    worker: Uuid,
    now: int,
)
    requires
        job.tasks.contains_key(id),
        job.tasks[id].status == TaskStatus::Skipped(SkipCause::FailedDependency),
        !job.has_started_task(),
    ensures
        job.verdict(worker, now) == (
            job.ended(JobStatus::Failed, worker, now),
            Ok::<TaskPickup, JobErrorView>(TaskPickup::Exhausted),
        ),
{
    assert(job.settlement_at(id, now) == TaskSettlement::Failure);
}

/// A running iteration ends as completed where each of its tasks completed, was skipped for a cause
/// that carries no failure, or failed for good while a dependent that declared it survives that
/// resolved on its own.
pub proof fn law_handled_iteration_completes(job: JobView, worker: Uuid, now: int)
    requires
        job.status == JobStatus::Running,
        job.tasks.dom().len() > 0,
        forall|id: Uuid| #[trigger]
            job.tasks.contains_key(id) ==> {
                ||| job.tasks[id].status == TaskStatus::Completed
                ||| job.tasks[id].status == TaskStatus::Skipped(SkipCause::ExecutorDecision)
                ||| job.tasks[id].status == TaskStatus::Skipped(SkipCause::SkippedDependency)
                ||| job.tasks[id].is_terminally_failed_at(now) && job.is_answered_for(id)
            },
    ensures
        job.completion_tried(worker, now) == Ok::<JobView, JobErrorView>(
            job.ended(JobStatus::Completed, worker, now),
        ),
{
    lemma_nothing_given_up(job, job.tasks.dom().len(), now);
}

/// A task that waits for a skipped one it does not accept is skipped in turn, unless a failure keeps it
/// from running.
pub proof fn law_branch_below_a_skipped_task_is_given_up(job: JobView, id: Uuid, k: int, now: int)
    requires
        job.tasks.dom().finite(),
        job.tasks.contains_key(id),
        job.tasks[id].status == TaskStatus::Blocked,
        !job.tasks[id].tolerance.allows_skipped,
        0 <= k < job.tasks[id].depends_on.len(),
        job.tasks.contains_key(job.tasks[id].depends_on[k]),
        ({
            let dependency = job.tasks[job.tasks[id].depends_on[k]].status;
            dependency == TaskStatus::Skipped(SkipCause::ExecutorDecision) || dependency
                == TaskStatus::Skipped(SkipCause::SkippedDependency)
        }),
        !job.is_held_by(job.tasks[id], SkipCause::FailedDependency, now),
    ensures
        job.branches_given_up(now).tasks[id].status == TaskStatus::Skipped(
            SkipCause::SkippedDependency,
        ),
{
    let task = job.tasks[id];
    assert(task.judgement(job.tasks[task.depends_on[k]], now) == DependencyVerdict::Skipped(
        SkipCause::SkippedDependency,
    ));
    assert(job.is_given_up(task, now));
    let next = job.next_given_up(now);
    assert(next.tasks.contains_key(id));
    if job.tasks.dom().len() == 0 {
        assert(job.tasks.dom() =~= Set::empty());
    }
    lemma_given_up_fit(next, (job.tasks.dom().len() - 1) as nat, now);
}

/// Giving up branches goes all the way down and no further: no task is left that lies on such a branch,
/// only blocked tasks are skipped, and everything else stays as it was.
pub proof fn law_branches_are_given_up_to_the_end(job: JobView, now: int)
    requires
        job.tasks.dom().finite(),
    ensures
        ({
            let after = job.branches_given_up(now);
            &&& after == (JobView { tasks: after.tasks, ..job })
            &&& after.tasks.dom() == job.tasks.dom()
            &&& forall|id: Uuid| #[trigger]
                after.tasks.contains_key(id) ==> !after.is_given_up(after.tasks[id], now)
            &&& forall|id: Uuid| #[trigger]
                job.tasks.contains_key(id) ==> after.tasks[id] == job.tasks[id] || (
                job.tasks[id].status == TaskStatus::Blocked && after.tasks[id].status
                    == TaskStatus::Skipped(SkipCause::SkippedDependency))
        }),
{
    lemma_given_up_fit(job, job.tasks.dom().len(), now);
    lemma_branches_given_up(job, now);
}

/// A branch given up on does not spoil its iteration: where giving it up leaves only tasks that
/// completed or were skipped for a cause that carries no failure, a running iteration ends as
/// completed, be it with the last execution or with the next worker that finds nothing to start.
pub proof fn law_given_up_branch_does_not_spoil_the_iteration(
    job: JobView,
    worker: Uuid,
    order: Seq<Uuid>,
    now: int,
)
    requires
        job.status == JobStatus::Running,
        job.tasks.dom().len() > 0,
        is_walk(order, job.tasks),
        forall|id: Uuid| #[trigger]
            job.tasks.contains_key(id) ==> {
                let status = job.branches_given_up(now).tasks[id].status;
                ||| status == TaskStatus::Completed
                ||| status == TaskStatus::Skipped(SkipCause::ExecutorDecision)
                ||| status == TaskStatus::Skipped(SkipCause::SkippedDependency)
            },
    ensures
        ({
            let ended = job.branches_given_up(now).ended(JobStatus::Completed, worker, now);
            &&& job.completion_tried(worker, now) == Ok::<JobView, JobErrorView>(ended)
            &&& !has_decisive_task(job, now) && !job.branches_given_up(now).all_tasks_completed()
                ==> job.picked(worker, order, now) == (
                ended,
                Ok::<TaskPickup, JobErrorView>(TaskPickup::Settled),
            )
        }),
{
    lemma_given_up_fit(job, job.tasks.dom().len(), now);
    let left = job.branches_given_up(now);
    assert(left.is_settled_at(now)) by {
        assert forall|id: Uuid| #[trigger] left.tasks.contains_key(id) implies left.settlement_at(
            id,
            now,
        ) == TaskSettlement::Settled by {
            assert(job.tasks.contains_key(id));
        }
    }
    lemma_walk_finds_a_decisive_task(job, order, now);
    if !has_decisive_task(job, now) {
        let ended = job.lifetimes_ended(order.take(job.walk_end(order, now, 0)), now);
        assert forall|id: Uuid| #[trigger] job.tasks.contains_key(id) implies ended.tasks[id]
            == job.tasks[id] by {
            assert(left.tasks[id] == job.tasks[id] || job.tasks[id].status == TaskStatus::Blocked);
        }
        assert(ended.tasks =~= job.tasks);
        assert(ended =~= job);
        lemma_walk_finds_a_decisive_task(left, order, now);
        if has_decisive_task(left, now) {
            let id = choose|id: Uuid| #[trigger]
                left.tasks.contains_key(id) && left.is_decisive(id, now);
            assert(job.tasks.contains_key(id));
        }
        if left.has_started_task() {
            let id = choose|id: Uuid| #[trigger]
                left.tasks.contains_key(id) && left.tasks[id].status == TaskStatus::Started;
            assert(job.tasks.contains_key(id));
        }
    }
}

/// Where no task tolerates a failure and none was skipped, no branch is given up, an iteration completes
/// exactly where every task completed, and a failure is left unhandled exactly where a task failed for
/// good.
pub proof fn law_plain_iterations_complete_as_a_whole(job: JobView, now: int)
    requires
        forall|id: Uuid| #[trigger]
            job.tasks.contains_key(id) ==> !job.tasks[id].tolerance.allows_failed && !(
            job.tasks[id].status is Skipped),
    ensures
        job.branches_given_up(now) == job,
        job.is_settled_at(now) <==> job.all_tasks_completed(),
        job.has_unhandled_failure_at(now) <==> exists|id: Uuid| #[trigger]
            job.tasks.contains_key(id) && job.tasks[id].is_terminally_failed_at(now),
{
    lemma_nothing_given_up(job, job.tasks.dom().len(), now);
    assert forall|id: Uuid| #[trigger] job.tasks.contains_key(id) implies (job.settlement_at(id, now)
        == TaskSettlement::Settled <==> job.tasks[id].status == TaskStatus::Completed) by {
        assert(!job.is_answered_for(id));
    }
    if job.has_unhandled_failure_at(now) {
        let id = choose|id: Uuid| #[trigger]
            job.tasks.contains_key(id) && job.settlement_at(id, now) == TaskSettlement::Failure;
        if job.tasks[id].status == TaskStatus::Blocked {
            let task = job.tasks[id];
            let k = choose|k: int|
                0 <= k < task.depends_on.len() && job.tasks.contains_key(
                    #[trigger] task.depends_on[k],
                ) && task.judgement(job.tasks[task.depends_on[k]], now)
                    == DependencyVerdict::Skipped(SkipCause::FailedDependency);
            assert(job.tasks[task.depends_on[k]].is_terminally_failed_at(now));
        }
    }
    if exists|id: Uuid| #[trigger]
        job.tasks.contains_key(id) && job.tasks[id].is_terminally_failed_at(now) {
        let id = choose|id: Uuid| #[trigger]
            job.tasks.contains_key(id) && job.tasks[id].is_terminally_failed_at(now);
        assert(!job.is_answered_for(id));
        assert(job.settlement_at(id, now) == TaskSettlement::Failure);
    }
}

/// An iteration that holds a task never waits for nothing: where a worker is told to wait, some task is
/// in flight.
pub proof fn law_waiting_is_for_a_running_task(
    job: JobView,
    worker: Uuid,
    order: Seq<Uuid>,
    now: int,
)
    requires
        is_walk(order, job.tasks),
        job.tasks.dom().len() > 0,
    ensures
        job.picked(worker, order, now).1 == Ok::<TaskPickup, JobErrorView>(TaskPickup::Waiting)
            ==> job.picked(worker, order, now).0.has_started_task(),
{
    if !job.is_processed() {
        let open = if job.status == JobStatus::Running {
            job
        } else {
            job.working(worker, now)
        };
        lemma_walk_finds_a_decisive_task(open, order, now);
        let outlived = open.lifetimes_ended(order.take(open.walk_end(order, now, 0)), now);
        assert(outlived.tasks.dom() =~= open.tasks.dom());
        lemma_given_up_fit(outlived, outlived.tasks.dom().len(), now);
        let ended = outlived.branches_given_up(now);
        lemma_walk_finds_a_decisive_task(ended, order, now);
        if !ended.has_started_task() && !ended.has_unhandled_failure_at(now)
            && !ended.is_deadlocked_at(now) && !has_decisive_task(ended, now) {
            assert forall|id: Uuid| #[trigger]
                ended.tasks.contains_key(id) implies ended.settlement_at(id, now)
                == TaskSettlement::Settled by {
                assert(!ended.is_decisive(id, now));
            }
        }
    }
}

/// A permanently failing task delays work instead of blocking it forever: an iteration that ended as
/// failed is followed by the next one, as soon as the schedule allows it and the iteration budget is
/// not spent.
pub proof fn law_failed_iteration_is_followed_by_the_next(
    job: JobView,
    worker: Uuid,
    order: Seq<Uuid>,
    now: int,
    later: int,
)
    requires
        job.picked(worker, order, now).1 == Ok::<TaskPickup, JobErrorView>(TaskPickup::Exhausted),
        !job.is_iteration_limit_reached(),
        job.next_start_at is None,
        job.iteration_interval is None,
        job.started_at <= later,
    ensures
        job.picked(worker, order, now).0.iteration_step_at(later)
            == IterationStepView::NextIterationReady,
{
    lemma_concluded(job, worker, order, now);
}

// Dependencies

/// Whether the tasks can be completed one after another: `rank` numbers them so that each waits only
/// for tasks there are, with lower numbers.
pub open spec fn orders_tasks(tasks: Map<Uuid, TaskView>, rank: Map<Uuid, int>) -> bool {
    forall|id: Uuid, k: int|
        tasks.contains_key(id) && 0 <= k < tasks[id].depends_on.len() ==> tasks.contains_key(
            (#[trigger] tasks[id].depends_on[k]),
        ) && rank[tasks[id].depends_on[k]] < rank[id]
}

/// Whether the tasks can be completed one after another.
pub open spec fn can_be_ordered(tasks: Map<Uuid, TaskView>) -> bool {
    exists|rank: Map<Uuid, int>| orders_tasks(tasks, rank)
}

/// Every reference of a list that is refused nowhere names a task of the description.
proof fn lemma_accepted_references(
    id: JobDefinitionId,
    job: Seq<char>,
    references: Seq<TaskRef>,
    count: int,
    k: int,
)
    requires
        first_refusal(id, job, references, count) is None,
        0 <= k < references.len(),
    ensures
        position_refusal(id, job, references[k], count) is None,
    decreases references.len(),
{
    if k < references.len() - 1 {
        lemma_accepted_references(id, job, references.drop_last(), count, k);
    }
}

/// Lists that are refused nowhere hold no refused list.
proof fn lemma_accepted_lists(
    id: JobDefinitionId,
    job: Seq<char>,
    lists: Seq<Seq<TaskRef>>,
    count: int,
    i: int,
)
    requires
        first_refusal_in(id, job, lists, count) is None,
        0 <= i < lists.len(),
    ensures
        first_refusal(id, job, lists[i], count) is None,
    decreases lists.len(),
{
    if i < lists.len() - 1 {
        lemma_accepted_lists(id, job, lists.drop_last(), count, i);
    }
}

/// References that are refused nowhere resolve to the identifiers of the tasks they name.
proof fn lemma_accepted_references_resolve(
    id: JobDefinitionId,
    job: Seq<char>,
    references: Seq<TaskRef>,
    ids: Seq<Uuid>,
)
    requires
        first_refusal(id, job, references, ids.len() as int) is None,
    ensures
        resolved_references(references, ids) matches Ok(resolved) && resolved.len()
            == references.len() && forall|k: int|
            0 <= k < resolved.len() ==> #[trigger] resolved[k] == ids[position_of(
                references[k],
            ) as int],
    decreases references.len(),
{
    if references.len() > 0 {
        lemma_accepted_references_resolve(id, job, references.drop_last(), ids);
        let earlier = resolved_references(references.drop_last(), ids)->Ok_0;
        let resolved = resolved_references(references, ids)->Ok_0;
        assert forall|k: int| 0 <= k < resolved.len() implies #[trigger] resolved[k]
            == ids[position_of(references[k]) as int] by {
            if k < earlier.len() {
                assert(earlier[k] == ids[position_of(references.drop_last()[k]) as int]);
            }
        }
    }
}

/// The tasks of a plan so far: one per definition, filed under its identifier and waiting for the
/// identifiers of the tasks its references name.
proof fn lemma_plan_of_accepted_description(
    id: JobDefinitionId,
    job: Seq<char>,
    definitions: Seq<TaskDefinitionView>,
    ids: Seq<Uuid>,
    worker: Uuid,
    count: int,
)
    requires
        first_refusal_in(id, job, own_dependencies(definitions), definitions.len() as int) is None,
        ids.len() == definitions.len(),
        ids.no_duplicates(),
        0 <= count <= definitions.len(),
    ensures
        planned_tasks(definitions, ids, worker, count) matches Ok(tasks) && {
            &&& forall|task: Uuid| #[trigger]
                tasks.contains_key(task) <==> exists|i: int|
                    0 <= i < count && #[trigger] ids[i] == task
            &&& forall|i: int|
                0 <= i < count ==> {
                    let task = tasks[#[trigger] ids[i]];
                    let references = definitions[i].depends_on;
                    task.depends_on.len() == references.len() && forall|k: int|
                        0 <= k < references.len() ==> #[trigger] task.depends_on[k]
                            == ids[position_of(references[k]) as int]
                }
        },
    decreases count,
{
    if count > 0 {
        lemma_plan_of_accepted_description(id, job, definitions, ids, worker, count - 1);
        let n = definitions.len() as int;
        let lists = own_dependencies(definitions);
        lemma_accepted_lists(id, job, lists, n, count - 1);
        assert(lists[count - 1] == definitions[count - 1].depends_on);
        lemma_accepted_references_resolve(id, job, definitions[count - 1].depends_on, ids);
        let earlier = planned_tasks(definitions, ids, worker, count - 1)->Ok_0;
        let tasks = planned_tasks(definitions, ids, worker, count)->Ok_0;
        assert forall|task: Uuid| #[trigger] tasks.contains_key(task) <==> exists|i: int|
            0 <= i < count && #[trigger] ids[i] == task by {
            if earlier.contains_key(task) {
                let i = choose|i: int| 0 <= i < count - 1 && #[trigger] ids[i] == task;
                assert(ids[i] == task);
            }
            if task == ids[count - 1] {
                assert(ids[count - 1] == task);
            }
        }
        assert forall|i: int| 0 <= i < count implies {
            let task = tasks[#[trigger] ids[i]];
            let references = definitions[i].depends_on;
            task.depends_on.len() == references.len() && forall|k: int|
                0 <= k < references.len() ==> #[trigger] task.depends_on[k] == ids[position_of(
                    references[k],
                ) as int]
        } by {
            if i < count - 1 {
                assert(ids[i] != ids[count - 1]);
                assert(tasks[ids[i]] == earlier[ids[i]]);
            }
        }
    }
}

/// An accepted description can be planned under any identifiers, and where these are distinct, its
/// tasks can be completed one after another.
pub proof fn law_accepted_description_can_be_completed(
    id: JobDefinitionId,
    job: Seq<char>,
    tasks: Seq<(TaskDefinitionView, ExecutorId)>,
    runtime: Seq<(Seq<char>, ExecutorId)>,
    declared: Seq<(TaskRef, Seq<TaskRef>)>,
    limits: TaskLimits,
    ids: Seq<Uuid>,
    worker: Uuid,
)
    requires
        description(id, job, tasks, runtime, declared, limits) is Ok,
        is_acyclic(
            dependency_edges(description(id, job, tasks, runtime, declared, limits)->Ok_0.1),
        ),
        ids.len() == tasks.len(),
        ids.no_duplicates(),
    ensures
        ({
            let lists = description(id, job, tasks, runtime, declared, limits)->Ok_0.1;
            let definitions = with_lists(definitions_of(tasks), lists);
            planned_tasks(definitions, ids, worker, definitions.len() as int) matches Ok(planned)
                && can_be_ordered(planned) && planned.dom().len() == tasks.len()
        }),
{
    let lists = description(id, job, tasks, runtime, declared, limits)->Ok_0.1;
    let definitions = with_lists(definitions_of(tasks), lists);
    let n = definitions.len() as int;
    crate::definition::lemma_merged_length(
        id,
        job,
        own_dependencies(definitions_of(tasks)),
        declared,
    );
    assert(own_dependencies(definitions) =~= lists);
    lemma_plan_of_accepted_description(id, job, definitions, ids, worker, n);
    let planned = planned_tasks(definitions, ids, worker, n)->Ok_0;
    let edges = dependency_edges(lists);
    assert forall|from: int, k: int|
        0 <= from < edges.len() && 0 <= k < edges[from].len() implies #[trigger] edges[from][k]
        < edges.len() by {
        lemma_accepted_lists(id, job, lists, n, from);
        lemma_accepted_references(id, job, lists[from], n, k);
    }
    law_acyclic_graph_is_orderable(edges);
    let rank = choose|rank: Map<int, int>| is_ranking(edges, rank);
    let by_id = Map::<Uuid, int>::new(
        |task: Uuid| planned.contains_key(task),
        |task: Uuid| rank[choose|i: int| 0 <= i < n && #[trigger] ids[i] == task],
    );
    assert forall|i: int| 0 <= i < n implies by_id[#[trigger] ids[i]] == rank[i] by {
        assert(planned.contains_key(ids[i]));
        let chosen = choose|j: int| 0 <= j < n && #[trigger] ids[j] == ids[i];
        assert(chosen == i);
    }
    assert forall|task: Uuid, k: int|
        planned.contains_key(task) && 0 <= k < planned[task].depends_on.len() implies planned.contains_key(
        (#[trigger] planned[task].depends_on[k]),
    ) && by_id[planned[task].depends_on[k]] < by_id[task] by {
        let i = choose|i: int| 0 <= i < n && #[trigger] ids[i] == task;
        let references = definitions[i].depends_on;
        assert(references == lists[i]);
        lemma_accepted_lists(id, job, lists, n, i);
        lemma_accepted_references(id, job, lists[i], n, k);
        let target = position_of(references[k]) as int;
        assert(planned[task].depends_on[k] == ids[target]);
        assert(edges[i][k] == target);
        assert(ids[target] == planned[task].depends_on[k]);
        assert(by_id[ids[target]] == rank[target]);
        assert(by_id[ids[i]] == rank[i]);
    }
    assert(orders_tasks(planned, by_id));
    assert(planned.dom() =~= ids.to_set()) by {
        assert forall|task: Uuid| planned.dom().contains(task) <==> ids.to_set().contains(
            task,
        ) by {
            if planned.contains_key(task) {
                let i = choose|i: int| 0 <= i < n && #[trigger] ids[i] == task;
                assert(ids.contains(task));
            }
            if ids.contains(task) {
                let i = choose|i: int| 0 <= i < ids.len() && ids[i] == task;
                assert(ids[i] == task);
            }
        }
    }
    ids.unique_seq_to_set();
}

/// Tasks that can be completed one after another never deadlock: as long as each is blocked, startable
/// or completed and one is not completed, every walk finds a task to start.
pub proof fn law_orderable_tasks_make_progress(
    job: JobView,
    worker: Uuid,
    order: Seq<Uuid>,
    now: int,
)
    requires
        job.well_formed(),
        !job.is_processed(),
        can_be_ordered(job.tasks),
        is_walk(order, job.tasks),
        forall|id: Uuid| #[trigger]
            job.tasks.contains_key(id) ==> job.tasks[id].availability_at(now)
                == TaskAvailability::Pickable || job.tasks[id].status == TaskStatus::Blocked
                || job.tasks[id].status == TaskStatus::Completed,
        exists|id: Uuid| #[trigger]
            job.tasks.contains_key(id) && job.tasks[id].status != TaskStatus::Completed,
    ensures
        job.picked(worker, order, now).1 matches Ok(TaskPickup::Ready(_)),
{
    let open = if job.status == JobStatus::Running {
        job
    } else {
        job.working(worker, now)
    };
    let rank = choose|rank: Map<Uuid, int>| orders_tasks(job.tasks, rank);
    let waiting = job.tasks.dom().filter(
        |id: Uuid| job.tasks[id].status != TaskStatus::Completed,
    );
    let some = choose|id: Uuid| #[trigger]
        job.tasks.contains_key(id) && job.tasks[id].status != TaskStatus::Completed;
    assert(waiting.contains(some));
    lemma_lowest_rank(waiting, rank);
    let first = choose|id: Uuid| #[trigger]
        waiting.contains(id) && forall|other: Uuid|
            waiting.contains(other) ==> rank[id] <= #[trigger] rank[other];
    assert(open.tasks.contains_key(first));
    if job.tasks[first].status == TaskStatus::Blocked {
        assert forall|k: int| 0 <= k < open.tasks[first].depends_on.len() implies open.tasks.contains_key(
            #[trigger] open.tasks[first].depends_on[k],
        ) && open.tasks[open.tasks[first].depends_on[k]].status == TaskStatus::Completed by {
            let dependency = job.tasks[first].depends_on[k];
            assert(rank[dependency] < rank[first]);
            if job.tasks[dependency].status != TaskStatus::Completed {
                assert(waiting.contains(dependency));
            }
        }
        assert(open.dependencies_satisfied(open.tasks[first], now));
    }
    assert(open.is_decisive(first, now));
    assert(has_decisive_task(open, now));
    lemma_walk_finds_a_decisive_task(open, order, now);
}

/// A task starts on what it declared it tolerates: as soon as everything it waits for completed, failed
/// for good where it tolerates that, or was skipped where it tolerates that, every walk finds a task to
/// start.
pub proof fn law_tolerated_dependencies_do_not_hold_back(
    job: JobView,
    id: Uuid,
    worker: Uuid,
    order: Seq<Uuid>,
    now: int,
)
    requires
        !job.is_processed(),
        is_walk(order, job.tasks),
        job.tasks.contains_key(id),
        job.tasks[id].status == TaskStatus::Blocked,
        forall|k: int|
            0 <= k < job.tasks[id].depends_on.len() ==> job.tasks.contains_key(
                (#[trigger] job.tasks[id].depends_on[k]),
            ) && ({
                let dependency = job.tasks[job.tasks[id].depends_on[k]];
                ||| dependency.status == TaskStatus::Completed
                ||| job.tasks[id].tolerance.allows_failed && dependency.is_terminally_failed_at(now)
                ||| job.tasks[id].tolerance.allows_skipped && dependency.status is Skipped
            }),
    ensures
        job.picked(worker, order, now).1 matches Ok(TaskPickup::Ready(_)),
{
    let open = if job.status == JobStatus::Running {
        job
    } else {
        job.working(worker, now)
    };
    assert(open.tasks.contains_key(id));
    assert(open.dependencies_satisfied(open.tasks[id], now));
    assert(has_decisive_task(open, now));
    lemma_walk_finds_a_decisive_task(open, order, now);
}

/// A task that tolerates nothing waits for every one of its dependencies to complete.
pub proof fn law_intolerant_task_waits_for_completion(job: JobView, id: Uuid, k: int, now: int)
    requires
        job.tasks.contains_key(id),
        job.tasks[id].status == TaskStatus::Blocked,
        !job.tasks[id].tolerance.allows_failed,
        !job.tasks[id].tolerance.allows_skipped,
        0 <= k < job.tasks[id].depends_on.len(),
        job.tasks.contains_key(job.tasks[id].depends_on[k]),
        job.tasks[job.tasks[id].depends_on[k]].status != TaskStatus::Completed,
    ensures
        !job.is_decisive(id, now),
{
    let dependency = job.tasks[id].depends_on[k];
    assert(job.tasks[id].judgement(job.tasks[dependency], now) != DependencyVerdict::Unblocked);
}

/// Among finitely many tasks one has the lowest rank.
proof fn lemma_lowest_rank(tasks: Set<Uuid>, rank: Map<Uuid, int>)
    requires
        tasks.finite(),
        tasks.len() > 0,
    ensures
        exists|id: Uuid| #[trigger]
            tasks.contains(id) && forall|other: Uuid|
                tasks.contains(other) ==> rank[id] <= #[trigger] rank[other],
    decreases tasks.len(),
{
    let some = tasks.choose();
    let rest = tasks.remove(some);
    if rest.len() == 0 {
        assert forall|other: Uuid| tasks.contains(other) implies rank[some] <= #[trigger] rank[other] by {
            if other != some {
                assert(rest.contains(other));
            }
        }
        assert(tasks.contains(some));
    } else {
        lemma_lowest_rank(rest, rank);
        let lowest = choose|id: Uuid| #[trigger]
            rest.contains(id) && forall|other: Uuid|
                rest.contains(other) ==> rank[id] <= #[trigger] rank[other];
        if rank[lowest] <= rank[some] {
            assert(tasks.contains(lowest));
            assert forall|other: Uuid| tasks.contains(other) implies rank[lowest]
                <= #[trigger] rank[other] by {
                if other != some {
                    assert(rest.contains(other));
                }
            }
        } else {
            assert(tasks.contains(some));
            assert forall|other: Uuid| tasks.contains(other) implies rank[some]
                <= #[trigger] rank[other] by {
                if other != some {
                    assert(rest.contains(other));
                }
            }
        }
    }
}

/// A task added at runtime keeps the tasks orderable: it can wait only for tasks there are, so nothing
/// comes to wait for itself.
pub proof fn law_added_task_keeps_the_order(
    job: JobView,
    definition: TaskDefinitionView,
    worker: Uuid,
    created_by_task: Option<Uuid>,
    id: Uuid,
)
    requires
        job.well_formed(),
        can_be_ordered(job.tasks),
        !job.tasks.contains_key(id),
        job.addition_refusal(definition, created_by_task) is None,
    ensures
        can_be_ordered(
            job.with_task(
                id,
                TaskView::fresh(
                    id,
                    worker,
                    created_by_task,
                    definition,
                    created_ids(definition.depends_on),
                ),
            ).tasks,
        ),
{
    let rank = choose|rank: Map<Uuid, int>| orders_tasks(job.tasks, rank);
    let added = TaskView::fresh(
        id,
        worker,
        created_by_task,
        definition,
        created_ids(definition.depends_on),
    );
    let after = job.tasks.insert(id, added);
    let top = lemma_rank_above(job.tasks.dom(), rank);
    let extended = rank.insert(id, top);
    assert forall|task: Uuid, k: int|
        after.contains_key(task) && 0 <= k < after[task].depends_on.len() implies after.contains_key(
        (#[trigger] after[task].depends_on[k]),
    ) && extended[after[task].depends_on[k]] < extended[task] by {
        if task == id {
            lemma_accepted_created(job, definition.depends_on, k);
            assert(job.tasks.contains_key(after[task].depends_on[k]));
        } else {
            assert(job.tasks.contains_key(job.tasks[task].depends_on[k]));
        }
    }
    assert(orders_tasks(after, extended));
}

/// References of a runtime task that are refused nowhere name tasks the iteration holds.
proof fn lemma_accepted_created(job: JobView, references: Seq<TaskRef>, k: int)
    requires
        job.reference_refusal(references) is None,
        0 <= k < references.len(),
    ensures
        job.tasks.contains_key(created_ids(references)[k]),
    decreases references.len(),
{
    if k < references.len() - 1 {
        lemma_accepted_created(job, references.drop_last(), k);
        assert(created_ids(references.drop_last())[k] == created_ids(references)[k]);
    }
}

/// Finitely many ranks are all below some number.
proof fn lemma_rank_above(tasks: Set<Uuid>, rank: Map<Uuid, int>) -> (top: int)
    requires
        tasks.finite(),
    ensures
        forall|id: Uuid| tasks.contains(id) ==> #[trigger] rank[id] < top,
    decreases tasks.len(),
{
    if tasks.len() == 0 {
        assert forall|id: Uuid| tasks.contains(id) implies #[trigger] rank[id] < 0 by {
            assert(tasks =~= Set::empty());
        }
        0
    } else {
        let some = tasks.choose();
        let below = lemma_rank_above(tasks.remove(some), rank);
        let top = if rank[some] < below {
            below
        } else {
            rank[some] + 1
        };
        assert forall|id: Uuid| tasks.contains(id) implies #[trigger] rank[id] < top by {
            if id != some {
                assert(tasks.remove(some).contains(id));
            }
        }
        top
    }
}

// Failures

/// A failed execution leaves nothing behind: no task its run created remains, every other task does as
/// it was, and nothing further can be added on its behalf.
pub proof fn law_failed_execution_is_rolled_back(
    job: JobView,
    id: Uuid,
    reason: Seq<char>,
    retry: TaskRetry,
    now: int,
    definition: TaskDefinitionView,
)
    requires
        job.tasks.contains_key(id),
        job.tasks[id].created_by_task != Some(id),
    ensures
        ({
            let after = job.task_failed(id, reason, retry, now);
            &&& after.tasks.contains_key(id) && after.tasks[id].status == TaskStatus::Failed
            &&& forall|other: Uuid| #[trigger]
                after.tasks.contains_key(other) ==> after.tasks[other].created_by_task != Some(id)
            &&& forall|other: Uuid|
                other != id && job.tasks.contains_key(other)
                    && job.tasks[other].created_by_task != Some(id)
                    ==> #[trigger] after.tasks.contains_key(other) && after.tasks[other]
                    == job.tasks[other]
            &&& after.addition_refusal(definition, Some(id)) is Some
        }),
{
}

/// A resolution the executor wrote stands: an execution that ends in failure after resolving its own
/// task changes nothing.
pub proof fn law_written_resolution_stands(
    job: JobView,
    id: Uuid,
    reason: Seq<char>,
    now: int,
)
    requires
        job.tasks.contains_key(id),
        job.tasks[id].resolution() is Some,
    ensures
        job.failure_recorded(id, reason, now) == Ok::<JobView, JobErrorView>(job),
{
}

/// An executor cannot leave its task hanging: whatever it returns, an execution whose result is saved
/// leaves the task resolved, and one that ended well by returning a payload leaves it completed with
/// that payload.
pub proof fn law_saved_execution_resolves_its_task(
    job: JobView,
    id: Uuid,
    worker: Uuid,
    end: ExecutionEnd,
    now: int,
)
    requires
        job.tasks.contains_key(id),
        job.tasks[id].created_by_task != Some(id),
        executed(job, id, worker, end, now).1 is Ok,
    ensures
        executed(job, id, worker, end, now).0.tasks.contains_key(id),
        executed(job, id, worker, end, now).0.tasks[id].resolution() is Some,
        end matches ExecutionEnd::Returned(TaskOutcome::Completed(output)) ==> (
        job.completion_refusal(id, output@, now) is None ==> executed(
            job,
            id,
            worker,
            end,
            now,
        ).0.tasks[id].output == output@),
{
    let recorded = match failure_text(job, id, end, now) {
        None => closed_by_worker(job, id, end, now),
        Some(message) => job.failure_recorded(id, message, now)->Ok_0,
    };
    lemma_given_up_fit(recorded, recorded.tasks.dom().len(), now);
    assert(recorded.tasks.contains_key(id));
}

// Merging

/// Bringing the start of a task into a stored job touches no other task, and bringing it in a second
/// time changes nothing.
pub proof fn law_merged_start_touches_one_task(
    job: JobView,
    worker_job: JobView,
    worker: Uuid,
    id: Uuid,
)
    requires
        job.picked_merge_refusal(worker_job, worker, id) is None,
        worker_job.tasks[id].processing_by_worker == Some(worker),
    ensures
        ({
            let merged = job.merged_with_picked(worker_job, worker, id);
            &&& merged.tasks[id] == worker_job.tasks[id]
            &&& forall|other: Uuid|
                other != id && job.tasks.contains_key(other) ==> #[trigger] merged.tasks.contains_key(
                    other,
                ) && merged.tasks[other] == job.tasks[other]
            &&& worker_job.status == JobStatus::Running ==> merged.picked_merge_refusal(
                worker_job,
                worker,
                id,
            ) is None && merged.merged_with_picked(worker_job, worker, id) == merged
        }),
{
    let merged = job.merged_with_picked(worker_job, worker, id);
    assert(merged.merged_with_picked(worker_job, worker, id).tasks =~= merged.tasks);
}

/// Bringing a result into a stored job loses nothing: the worker's own result and what its execution
/// created arrive, every stored task another worker may have moved on stays as it is stored, and no
/// stored task disappears.
pub proof fn law_merged_result_loses_nothing(job: JobView, worker_job: JobView, worker: Uuid)
    ensures
        ({
            let merged = job.merged_with_processed(worker_job, worker);
            &&& forall|id: Uuid|
                worker_job.tasks.contains_key(id) && worker_job.tasks[id].processing_by_worker
                    == Some(worker) ==> #[trigger] merged.tasks.contains_key(id) && merged.tasks[id]
                    == worker_job.tasks[id]
            &&& forall|id: Uuid|
                worker_job.tasks.contains_key(id) && worker_job.tasks[id].created_by_worker == worker
                    && worker_job.tasks[id].processing_by_worker is None && !job.tasks.contains_key(
                    id,
                ) ==> #[trigger] merged.tasks.contains_key(id) && merged.tasks[id]
                    == worker_job.tasks[id]
            &&& forall|id: Uuid|
                job.tasks.contains_key(id) ==> #[trigger] merged.tasks.contains_key(id) && (
                merged.tasks[id] == job.tasks[id] || (worker_job.tasks.contains_key(id)
                    && worker_job.tasks[id].processing_by_worker == Some(worker)))
        }),
{
}

/// A task another worker owns in the stored job is never overwritten: the merge is refused as lost to
/// that worker, whichever change it was to bring in, and the stored job stands.
pub proof fn law_lost_task_is_not_overwritten(
    job: JobView,
    worker_job: JobView,
    worker: Uuid,
    owner: Uuid,
    id: Uuid,
    now: int,
)
    requires
        job.id == worker_job.id,
        job.tasks.contains_key(id),
        job.tasks[id].processing_by_worker == Some(owner),
        owner != worker,
    ensures
        job.settled(ConflictPolicy::MergePicked { worker, task: id }, worker_job, now) == Ok::<
            (JobView, Option<SaveOutcome>),
            JobErrorView,
        >((job, Some(SaveOutcome::Stolen))),
        job.settled(ConflictPolicy::MergeProcessed { worker, task: id }, worker_job, now) == Ok::<
            (JobView, Option<SaveOutcome>),
            JobErrorView,
        >((job, Some(SaveOutcome::Stolen))),
{
}

// Polling

/// The backoff never slows a poll beyond the ceiling nor speeds it up: an interval between the base and
/// the ceiling is followed by one at least as long, still no longer than the ceiling, and twice as long
/// until the ceiling is reached.
pub proof fn law_backoff_grows_to_the_ceiling(config: WorkerConfigView, last: int)
    requires
        config.is_pollable(),
        config.poll_interval <= last <= config.ceiling(),
    ensures
        last <= config.backed_off(last) <= config.ceiling(),
        config.backed_off(last) == last * 2 || config.backed_off(last) == config.ceiling(),
{
}

/// A job that spent its iteration budget is never polled again, however a later pass ends.
pub proof fn law_exhausted_job_stays_exhausted(
    plan: PollPlanView,
    config: WorkerConfigView,
    outcome: JobPassOutcome,
    now: int,
    wall: int,
)
    ensures
        plan.exhausted ==> plan.after(config, outcome, now, wall).exhausted,
        plan.after(config, JobPassOutcome::IterationBudgetSpent, now, wall).exhausted,
        plan.exhausted ==> !plan.is_due(now),
{
}

/// A job whose next iteration is due at a moment within the year is not polled until that moment has
/// passed, and is after it; the pass that found it so puts it back on the base interval.
pub proof fn law_due_job_is_polled_when_due(
    plan: PollPlanView,
    config: WorkerConfigView,
    due: crate::time::Moment,
    now: int,
    wall: int,
    passed: int,
)
    requires
        wall <= due@ <= wall + crate::poll::longest_poll_interval(),
        !plan.exhausted,
    ensures
        plan.after(config, JobPassOutcome::NextIterationDueAt(due), now, wall).is_due(now + passed)
            <==> wall + passed > due@,
        plan.after(config, JobPassOutcome::NextIterationDueAt(due), now, wall).poll_interval
            == config.poll_interval,
{
}

/// A wait for a moment is never negative and never longer than a year.
pub proof fn law_waits_are_bounded(moment: int, now: int)
    ensures
        0 <= time_until(moment, now) <= crate::poll::longest_poll_interval(),
{
}

// Waiting for an iteration

/// What waiters see only moves forward, and in whatever order two reports arrive, they leave the later
/// iteration recorded.
pub proof fn law_reports_of_finished_iterations_commute(
    recorded: Option<u64>,
    first: u64,
    second: u64,
)
    ensures
        recorded matches Some(last) ==> later_iteration(recorded, first) >= last,
        later_iteration(recorded, first) >= first,
        later_iteration(Some(later_iteration(recorded, first)), second) == later_iteration(
            Some(later_iteration(recorded, second)),
            first,
        ),
        later_iteration(Some(later_iteration(recorded, first)), first) == later_iteration(
            recorded,
            first,
        ),
{
}

} // verus!
