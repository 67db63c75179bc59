//! What a worker that looks for work finds, and how iterations end.

use vstd::prelude::*;

use crate::error::{JobError, JobErrorView};
use crate::job::{
    lemma_branches_given_up, lemma_given_up_fit, lemma_walk_covers, lemma_walk_end, Job,
};
use crate::job_laws::is_over;
use crate::job_view::{is_walk, JobView, TaskPickup, TaskSettlement};
use crate::status::{JobStatus, SkipCause, TaskRetry, TaskStatus};
use crate::task::{DependencyVerdict, Task, TaskView, Uuid};
use crate::task_laws::{can_run, failed_for_good, is_past, is_refusal};
use crate::text::decimal;
use crate::time::{is_dated, moment_text, whole_millis, Moment};

verus! {

// What holds a task back

/// Whether `task` accepts how the task `id` settled: it completed, failed for good with `task`
/// tolerating that, or was skipped with `task` tolerating that.
pub open spec fn accepts(job: JobView, task: TaskView, id: Uuid, now: int) -> bool {
    job.tasks.contains_key(id) && {
        ||| job.tasks[id].status == TaskStatus::Completed
        ||| failed_for_good(job.tasks[id], now) && task.tolerance.allows_failed
        ||| job.tasks[id].status is Skipped && task.tolerance.allows_skipped
    }
}

/// Whether nothing holds `task` back.
pub open spec fn is_free(job: JobView, task: TaskView, now: int) -> bool {
    forall|k: int|
        0 <= k < task.depends_on.len() ==> accepts(job, task, #[trigger] task.depends_on[k], now)
}

/// Whether a worker that comes by the task `id` takes it.
pub open spec fn can_be_taken(job: JobView, id: Uuid, now: int) -> bool {
    can_run(job.tasks[id], now) || (job.tasks[id].status == TaskStatus::Blocked && is_free(
        job,
        job.tasks[id],
        now,
    ))
}

/// Whether a failure keeps `task` from ever running: one it waits for failed for good, or was put out
/// because of a failure, and it does not tolerate that.
pub open spec fn is_cut_off(job: JobView, task: TaskView, now: int) -> bool {
    exists|k: int|
        0 <= k < task.depends_on.len() && job.tasks.contains_key(#[trigger] task.depends_on[k]) && ({
            let dependency = job.tasks[task.depends_on[k]];
            ||| failed_for_good(dependency, now) && !task.tolerance.allows_failed
            ||| dependency.status == TaskStatus::Skipped(SkipCause::FailedDependency)
                && !task.tolerance.allows_skipped
        })
}

/// Whether `task` waits for one that was skipped for a reason other than a failure, and does not
/// tolerate that.
pub open spec fn is_below_a_skip(job: JobView, task: TaskView) -> bool {
    exists|k: int|
        0 <= k < task.depends_on.len() && job.tasks.contains_key(#[trigger] task.depends_on[k]) && ({
            let dependency = job.tasks[task.depends_on[k]].status;
            dependency == TaskStatus::Skipped(SkipCause::ExecutorDecision) || dependency
                == TaskStatus::Skipped(SkipCause::SkippedDependency)
        }) && !task.tolerance.allows_skipped
}

/// Whether a task that waited for `id` tolerated its failure and came to an end of its own.
pub open spec fn is_answered(job: JobView, id: Uuid) -> bool {
    exists|other: Uuid|
        #[trigger] job.tasks.contains_key(other) && job.tasks[other].depends_on.contains(id)
            && job.tasks[other].tolerance.allows_failed && (job.tasks[other].status
            == TaskStatus::Completed || job.tasks[other].status == TaskStatus::Skipped(
            SkipCause::ExecutorDecision,
        ))
}

/// Whether the task came to an end without leaving a failure that nobody answered for.
pub open spec fn is_done(job: JobView, id: Uuid, now: int) -> bool {
    ||| job.tasks[id].status == TaskStatus::Completed
    ||| job.tasks[id].status == TaskStatus::Skipped(SkipCause::ExecutorDecision)
    ||| job.tasks[id].status == TaskStatus::Skipped(SkipCause::SkippedDependency)
    ||| failed_for_good(job.tasks[id], now) && is_answered(job, id)
}

/// Whether the task is why its iteration fails.
pub open spec fn is_lost(job: JobView, id: Uuid, now: int) -> bool {
    ||| failed_for_good(job.tasks[id], now) && !is_answered(job, id)
    ||| job.tasks[id].status == TaskStatus::Skipped(SkipCause::FailedDependency)
    ||| job.tasks[id].status == TaskStatus::Blocked && is_cut_off(job, job.tasks[id], now)
}

/// What contracts say of dependencies is what is said here in plain terms.
pub(crate) proof fn lemma_terms(job: JobView, task: TaskView, now: int)
    ensures
        job.dependencies_satisfied(task, now) == is_free(job, task, now),
        job.is_held_by(task, SkipCause::FailedDependency, now) == is_cut_off(job, task, now),
        job.is_held_by(task, SkipCause::SkippedDependency, now) == is_below_a_skip(job, task),
{
    if job.dependencies_satisfied(task, now) {
        assert forall|k: int| 0 <= k < task.depends_on.len() implies accepts(
            job,
            task,
            #[trigger] task.depends_on[k],
            now,
        ) by {}
    }
    if is_free(job, task, now) {
        assert forall|k: int| 0 <= k < task.depends_on.len() implies job.tasks.contains_key(
            #[trigger] task.depends_on[k],
        ) && task.judgement(job.tasks[task.depends_on[k]], now) == DependencyVerdict::Unblocked by {
            assert(accepts(job, task, task.depends_on[k], now));
        }
    }
}

/// The same for the tasks of a job.
proof fn lemma_task_terms(job: JobView, id: Uuid, now: int)
    ensures
        job.is_decisive(id, now) == can_be_taken(job, id, now),
        job.is_answered_for(id) == is_answered(job, id),
        job.settlement_at(id, now) == TaskSettlement::Settled <==> is_done(job, id, now),
        job.settlement_at(id, now) == TaskSettlement::Failure <==> is_lost(job, id, now),
        job.is_given_up(job.tasks[id], now) <==> job.tasks[id].status == TaskStatus::Blocked
            && is_below_a_skip(job, job.tasks[id]) && !is_cut_off(job, job.tasks[id], now),
{
    lemma_terms(job, job.tasks[id], now);
    if is_answered(job, id) {
        let other = choose|other: Uuid|
            #[trigger] job.tasks.contains_key(other) && job.tasks[other].depends_on.contains(id)
                && job.tasks[other].tolerance.allows_failed && (job.tasks[other].status
                == TaskStatus::Completed || job.tasks[other].status == TaskStatus::Skipped(
                SkipCause::ExecutorDecision,
            ));
        assert(job.tasks[other].answers_for(id));
    }
    if job.is_answered_for(id) {
        let other = choose|other: Uuid| #[trigger]
            job.tasks.contains_key(other) && job.tasks[other].answers_for(id);
        assert(job.tasks[other].depends_on.contains(id));
    }
}

/// A job answers questions about its tasks by how they settled and what they tolerate.
pub proof fn law_job_knows_how_its_tasks_settled(
    job: &Job,
    task: &Task,
    id: &Uuid,
    cause: SkipCause,
    now: Moment,
    answer: bool,
)
    ensures
        call_ensures(Job::dependencies_satisfied, (job, task, now), answer) ==> answer == is_free(
            job@,
            task@,
            now@,
        ),
        call_ensures(Job::has_started_task, (job,), answer) ==> answer == exists|other: Uuid|
            #[trigger] job@.tasks.contains_key(other) && job@.tasks[other].status
                == TaskStatus::Started,
        call_ensures(Job::all_tasks_completed, (job,), answer) ==> answer == (
        job@.tasks.dom().len() > 0 && forall|other: Uuid|
            #[trigger] job@.tasks.contains_key(other) ==> job@.tasks[other].status
                == TaskStatus::Completed),
        call_ensures(Job::is_answered_for, (job, id), answer) ==> answer == is_answered(job@, *id),
        call_ensures(Job::is_settled_at, (job, now), answer) ==> answer == (job@.tasks.dom().len()
            > 0 && forall|other: Uuid|
            #[trigger] job@.tasks.contains_key(other) ==> is_done(job@, other, now@)),
        call_ensures(Job::has_unhandled_failure_at, (job, now), answer) ==> answer == exists|
            other: Uuid,
        |
            #[trigger] job@.tasks.contains_key(other) && is_lost(job@, other, now@),
        call_ensures(Job::is_deadlocked_at, (job, now), answer) ==> answer == exists|other: Uuid|
            #[trigger] job@.tasks.contains_key(other) && job@.tasks[other].status
                == TaskStatus::Blocked && !is_free(job@, job@.tasks[other], now@),
        call_ensures(Job::is_given_up, (job, task, now), answer) ==> answer == (task@.status
            == TaskStatus::Blocked && is_below_a_skip(job@, task@) && !is_cut_off(
            job@,
            task@,
            now@,
        )),
{
    lemma_terms(job@, task@, now@);
    lemma_task_terms(job@, *id, now@);
    lemma_job_terms(job@, now@);
}

/// The same for a job as a whole.
proof fn lemma_job_terms(job: JobView, now: int)
    ensures
        job.is_settled_at(now) == (job.tasks.dom().len() > 0 && forall|other: Uuid|
            #[trigger] job.tasks.contains_key(other) ==> is_done(job, other, now)),
        job.has_unhandled_failure_at(now) == exists|other: Uuid|
            #[trigger] job.tasks.contains_key(other) && is_lost(job, other, now),
        job.is_deadlocked_at(now) == exists|other: Uuid|
            #[trigger] job.tasks.contains_key(other) && job.tasks[other].status
                == TaskStatus::Blocked && !is_free(job, job.tasks[other], now),
        forall|other: Uuid|
            #[trigger] job.tasks.contains_key(other) ==> job.is_decisive(other, now)
                == can_be_taken(job, other, now),
{
    assert forall|other: Uuid| #[trigger] job.tasks.contains_key(other) implies {
        &&& job.is_decisive(other, now) == can_be_taken(job, other, now)
        &&& (job.settlement_at(other, now) == TaskSettlement::Settled) == is_done(job, other, now)
        &&& (job.settlement_at(other, now) == TaskSettlement::Failure) == is_lost(job, other, now)
        &&& job.dependencies_satisfied(job.tasks[other], now) == is_free(
            job,
            job.tasks[other],
            now,
        )
    } by {
        lemma_task_terms(job, other, now);
        lemma_terms(job, job.tasks[other], now);
    }
    if job.has_unhandled_failure_at(now) {
        let other = choose|other: Uuid| #[trigger]
            job.tasks.contains_key(other) && job.settlement_at(other, now)
                == TaskSettlement::Failure;
        assert(is_lost(job, other, now));
    }
    if job.is_deadlocked_at(now) {
        let other = choose|other: Uuid| #[trigger]
            job.tasks.contains_key(other) && job.tasks[other].status == TaskStatus::Blocked
                && !job.dependencies_satisfied(job.tasks[other], now);
        assert(!is_free(job, job.tasks[other], now));
    }
}

// Looking for work

/// Whether `after` is `before` taken into work: a running job is so already, an opened one is marked by
/// the worker and the moment. Nothing is said of tasks, and nothing else changes.
pub open spec fn is_taken_into_work(before: JobView, after: JobView, worker: Uuid, now: int) -> bool {
    &&& after.status == JobStatus::Running
    &&& before.status == JobStatus::Running ==> after == (JobView { tasks: after.tasks, ..before })
    &&& before.status != JobStatus::Running ==> after.updated_by_worker_id == worker
        && after.running_at == Some(now) && after == (JobView {
        tasks: after.tasks,
        status: after.status,
        updated_by_worker_id: after.updated_by_worker_id,
        running_at: after.running_at,
        ..before
    })
}

/// Whether looking for work may turn the task `before` into `after`: it leaves it alone, fails it where
/// it outlived its lifetime, or skips it where it is blocked on a branch given up on.
pub open spec fn is_passed_by(before: TaskView, after: TaskView, now: int) -> bool {
    ||| after == before
    ||| before.status == TaskStatus::Started && is_past(before.lifetime_deadline_at, now)
        && is_refusal(
        before,
        after,
        lifetime_report(before),
        TaskRetry::WhileBudgetLasts,
        now,
    )
    ||| before.status == TaskStatus::Blocked && after == (TaskView {
        status: TaskStatus::Skipped(SkipCause::SkippedDependency),
        resolution_reason: "dependency skipped"@,
        completed_at: Some(now),
        ..before
    })
}

/// What a task is failed with that outlived its lifetime: how long that was, and when it ended.
pub open spec fn lifetime_report(task: TaskView) -> Seq<char> {
    let ended = match task.lifetime_deadline_at {
        Some(deadline) => moment_text(deadline),
        None => "unset"@,
    };
    "task outlived its maximum lifetime of "@ + decimal(whole_millis(task.max_lifetime))
        + " ms (lifetime deadline "@ + ended + ")"@
}

/// The job a worker looks for work in.
spec fn opened(job: JobView, worker: Uuid, now: int) -> JobView {
    if job.status == JobStatus::Running {
        job
    } else {
        job.working(worker, now)
    }
}

/// A worker takes the first task it comes by that can be taken, as it is; a blocked one becomes ready by
/// that. Of the tasks before it only those that outlived their lifetime change, and those only on the
/// way to a blocked one.
pub proof fn law_first_task_that_can_be_taken_is_picked(
    job: &mut Job,
    worker: &Uuid,
    order: &Vec<Uuid>,
    now: Moment,
    picked: Result<TaskPickup, JobError>,
    i: int,
)
    requires
        call_ensures(Job::pick_in_order, (job, worker, order, now), picked),
        is_walk(order@, old(job)@.tasks),
        !is_over(old(job)@),
        0 <= i < order@.len(),
        can_be_taken(old(job)@, order@[i], now@),
        forall|j: int| 0 <= j < i ==> !can_be_taken(old(job)@, #[trigger] order@[j], now@),
    ensures
        picked == Ok::<TaskPickup, JobError>(TaskPickup::Ready(order@[i])),
        is_taken_into_work(old(job)@, final(job)@, *worker, now@),
        final(job)@.tasks.dom() == old(job)@.tasks.dom(),
        old(job)@.tasks[order@[i]].status != TaskStatus::Blocked ==> final(job)@.tasks == old(
            job,
        )@.tasks,
        old(job)@.tasks[order@[i]].status == TaskStatus::Blocked ==> {
            &&& final(job)@.tasks[order@[i]] == (TaskView {
                status: TaskStatus::Todo,
                ..old(job)@.tasks[order@[i]]
            })
            &&& forall|j: int|
                0 <= j < order@.len() && j != i ==> {
                    let before = old(job)@.tasks[#[trigger] order@[j]];
                    let after = final(job)@.tasks[order@[j]];
                    if j < i && before.status == TaskStatus::Started && is_past(
                        before.lifetime_deadline_at,
                        now@,
                    ) {
                        is_refusal(
                            before,
                            after,
                            lifetime_report(before),
                            TaskRetry::WhileBudgetLasts,
                            now@,
                        )
                    } else {
                        after == before
                    }
                }
        },
{
    let before = old(job)@;
    let open = opened(before, *worker, now@);
    lemma_walk_covers(order@, open.tasks);
    lemma_walk_end(open, order@, now@, 0);
    let end = open.walk_end(order@, now@, 0);
    assert forall|j: int| 0 <= j < order@.len() implies open.is_decisive(
        #[trigger] order@[j],
        now@,
    ) == can_be_taken(before, order@[j], now@) by {
        lemma_same_tasks(before, open, order@[j], now@);
        lemma_task_terms(open, order@[j], now@);
    }
    if end < i {
        assert(open.is_decisive(order@[end], now@));
    }
    if end > i {
        assert(!open.is_decisive(order@[i], now@));
    }
    assert(end == i);
    if before.tasks[order@[i]].status == TaskStatus::Blocked {
        let walked = order@.take(i);
        assert forall|j: int| 0 <= j < order@.len() implies (walked.contains(#[trigger] order@[j])
            <==> j < i) by {
            if j < i {
                assert(walked[j] == order@[j]);
            }
            if walked.contains(order@[j]) {
                let m = choose|m: int| 0 <= m < walked.len() && walked[m] == order@[j];
                assert(order@[m] == order@[j]);
            }
        }
        assert(final(job)@.tasks.dom() =~= before.tasks.dom());
        assert(order@.contains(order@[i]));
    }
}

/// What can be taken depends on the tasks alone.
proof fn lemma_same_tasks(job: JobView, other: JobView, id: Uuid, now: int)
    requires
        job.tasks == other.tasks,
    ensures
        can_be_taken(job, id, now) == can_be_taken(other, id, now),
        is_done(job, id, now) == is_done(other, id, now),
        is_lost(job, id, now) == is_lost(other, id, now),
{
    let task = job.tasks[id];
    assert forall|k: int| 0 <= k < task.depends_on.len() implies accepts(
        job,
        task,
        #[trigger] task.depends_on[k],
        now,
    ) == accepts(other, task, task.depends_on[k], now) by {}
    assert(is_free(job, task, now) == is_free(other, task, now)) by {
        if is_free(job, task, now) {
            assert forall|k: int| 0 <= k < task.depends_on.len() implies accepts(
                other,
                task,
                #[trigger] task.depends_on[k],
                now,
            ) by {
                assert(accepts(job, task, task.depends_on[k], now));
            }
        }
        if is_free(other, task, now) {
            assert forall|k: int| 0 <= k < task.depends_on.len() implies accepts(
                job,
                task,
                #[trigger] task.depends_on[k],
                now,
            ) by {
                assert(accepts(other, task, task.depends_on[k], now));
            }
        }
    }
    assert(is_cut_off(job, task, now) == is_cut_off(other, task, now));
    assert(is_answered(job, id) == is_answered(other, id));
}

/// Giving up branches leaves the tasks it does not skip, and skips only what waits for a skipped task
/// and is cut off by no failure.
pub(crate) proof fn lemma_given_up_reason(job: JobView, steps: nat, now: int)
    ensures
        ({
            let after = job.given_up(steps, now);
            forall|id: Uuid| #[trigger]
                job.tasks.contains_key(id) && after.tasks[id] != job.tasks[id] ==> is_below_a_skip(
                    after,
                    job.tasks[id],
                ) && !is_cut_off(after, job.tasks[id], now)
        }),
    decreases steps,
{
    if steps > 0 {
        let next = job.next_given_up(now);
        let after = job.given_up(steps, now);
        lemma_given_up_fit(job, 1, now);
        assert(job.given_up(1, now) == next.given_up(0, now));
        lemma_given_up_fit(next, (steps - 1) as nat, now);
        lemma_given_up_fit(job, steps, now);
        lemma_given_up_reason(next, (steps - 1) as nat, now);
        assert forall|id: Uuid| #[trigger]
            job.tasks.contains_key(id) && after.tasks[id]
                != job.tasks[id] implies is_below_a_skip(after, job.tasks[id]) && !is_cut_off(
            after,
            job.tasks[id],
            now,
        ) by {
            assert(next.tasks.contains_key(id));
            let task = job.tasks[id];
            if next.tasks[id] != task {
                lemma_task_terms(job, id, now);
                let k = choose|k: int|
                    0 <= k < task.depends_on.len() && job.tasks.contains_key(
                        #[trigger] task.depends_on[k],
                    ) && ({
                        let dependency = job.tasks[task.depends_on[k]].status;
                        dependency == TaskStatus::Skipped(SkipCause::ExecutorDecision) || dependency
                            == TaskStatus::Skipped(SkipCause::SkippedDependency)
                    }) && !task.tolerance.allows_skipped;
                assert(after.tasks[task.depends_on[k]] == job.tasks[task.depends_on[k]]);
                assert(is_below_a_skip(after, task));
                if is_cut_off(after, task, now) {
                    let j = choose|j: int|
                        0 <= j < task.depends_on.len() && after.tasks.contains_key(
                            #[trigger] task.depends_on[j],
                        ) && ({
                            let dependency = after.tasks[task.depends_on[j]];
                            ||| failed_for_good(dependency, now) && !task.tolerance.allows_failed
                            ||| dependency.status == TaskStatus::Skipped(
                                SkipCause::FailedDependency,
                            ) && !task.tolerance.allows_skipped
                        });
                    assert(job.tasks.contains_key(task.depends_on[j]));
                    assert(after.tasks[task.depends_on[j]] == job.tasks[task.depends_on[j]]);
                    assert(is_cut_off(job, task, now));
                }
            }
        }
    }
}

/// The job a worker goes on with that found nothing to take: what outlived its lifetime is failed, and
/// the branches below skipped tasks are given up.
spec fn gone_through(job: JobView, worker: Uuid, order: Seq<Uuid>, now: int) -> JobView {
    let open = opened(job, worker, now);
    open.lifetimes_ended(order.take(open.walk_end(order, now, 0)), now).branches_given_up(now)
}

/// What a worker that found nothing to take has done to the tasks.
proof fn lemma_gone_through(job: JobView, worker: Uuid, order: Seq<Uuid>, now: int)
    requires
        is_walk(order, job.tasks),
        !is_over(job),
        forall|id: Uuid| #[trigger] job.tasks.contains_key(id) ==> !can_be_taken(job, id, now),
    ensures
        ({
            let open = opened(job, worker, now);
            let left = gone_through(job, worker, order, now);
            &&& open.walk_end(order, now, 0) == order.len()
            &&& left == (JobView { tasks: left.tasks, ..open })
            &&& left.tasks.dom() == job.tasks.dom()
            &&& is_walk(order, left.tasks)
            &&& forall|id: Uuid| #[trigger]
                job.tasks.contains_key(id) ==> is_passed_by(job.tasks[id], left.tasks[id], now)
            &&& forall|id: Uuid| #[trigger]
                job.tasks.contains_key(id) && job.tasks[id].status == TaskStatus::Started && is_past(
                    job.tasks[id].lifetime_deadline_at,
                    now,
                ) ==> left.tasks[id].status == TaskStatus::Failed
            &&& forall|id: Uuid| #[trigger]
                left.tasks.contains_key(id) ==> !(left.tasks[id].status == TaskStatus::Blocked
                    && is_below_a_skip(left, left.tasks[id]) && !is_cut_off(
                    left,
                    left.tasks[id],
                    now,
                ))
            &&& forall|id: Uuid| #[trigger]
                job.tasks.contains_key(id) && job.tasks[id].status == TaskStatus::Blocked
                    && left.tasks[id].status != TaskStatus::Blocked ==> is_below_a_skip(
                    left,
                    job.tasks[id],
                ) && !is_cut_off(left, job.tasks[id], now)
        }),
{
    let open = opened(job, worker, now);
    lemma_walk_covers(order, open.tasks);
    lemma_walk_end(open, order, now, 0);
    let end = open.walk_end(order, now, 0);
    if end < order.len() {
        assert(open.tasks.contains_key(order[end]));
        lemma_same_tasks(job, open, order[end], now);
        lemma_task_terms(open, order[end], now);
    }
    assert(order.take(end) =~= order);
    let ended = open.lifetimes_ended(order, now);
    assert(ended.tasks.dom() =~= job.tasks.dom());
    let count = ended.tasks.dom().len();
    lemma_given_up_fit(ended, count, now);
    lemma_given_up_reason(ended, count, now);
    let left = ended.branches_given_up(now);
    assert(left.tasks.dom() == job.tasks.dom());
    assert forall|id: Uuid| #[trigger] job.tasks.contains_key(id) implies {
        &&& is_passed_by(job.tasks[id], left.tasks[id], now)
        &&& job.tasks[id].status == TaskStatus::Started && is_past(
            job.tasks[id].lifetime_deadline_at,
            now,
        ) ==> left.tasks[id].status == TaskStatus::Failed
        &&& job.tasks[id].status == TaskStatus::Blocked && left.tasks[id].status
            != TaskStatus::Blocked ==> is_below_a_skip(left, job.tasks[id]) && !is_cut_off(
            left,
            job.tasks[id],
            now,
        )
    } by {
        assert(order.contains(id));
        assert(ended.tasks.contains_key(id));
    }
    assert(order.to_set() == job.tasks.dom());
    assert(ended.tasks.dom().finite());
    lemma_branches_given_up(ended, now);
    assert forall|id: Uuid| #[trigger] left.tasks.contains_key(id) implies !(left.tasks[id].status
        == TaskStatus::Blocked && is_below_a_skip(left, left.tasks[id]) && !is_cut_off(
        left,
        left.tasks[id],
        now,
    )) by {
        lemma_task_terms(left, id, now);
    }
}

/// Whether `after` is `before` ended as `status` by `worker` at `now`, its tasks aside.
pub open spec fn is_ended(
    before: JobView,
    after: JobView,
    status: JobStatus,
    worker: Uuid,
    now: int,
) -> bool {
    &&& after.status == status
    &&& after.updated_by_worker_id == worker
    &&& after.completed_at == Some(now)
    &&& before.status != JobStatus::Running ==> after.running_at == Some(now)
    &&& before.status == JobStatus::Running ==> after.running_at == before.running_at
    &&& after == (JobView {
        tasks: after.tasks,
        status: after.status,
        updated_by_worker_id: after.updated_by_worker_id,
        completed_at: after.completed_at,
        running_at: after.running_at,
        ..before
    })
}

/// A worker that finds nothing to take fails what outlived its lifetime and gives up the branches below
/// skipped tasks. That may free a task that tolerates it, which is then taken. Otherwise it waits exactly
/// while a task runs; ends the iteration as completed where every task is done, or as failed where a task
/// is lost; and reports what should not be: tasks that all completed, or that wait for nothing.
pub proof fn law_iteration_ends_by_what_became_of_its_tasks(
    job: &mut Job,
    worker: &Uuid,
    order: &Vec<Uuid>,
    now: Moment,
    picked: Result<TaskPickup, JobError>,
)
    requires
        call_ensures(Job::pick_in_order, (job, worker, order, now), picked),
        is_walk(order@, old(job)@.tasks),
        !is_over(old(job)@),
        old(job)@.tasks.dom().len() > 0,
        forall|id: Uuid| #[trigger]
            old(job)@.tasks.contains_key(id) ==> !can_be_taken(old(job)@, id, now@),
    ensures
        ({
            let before = old(job)@;
            let after = final(job)@;
            let running = exists|id: Uuid|
                #[trigger] after.tasks.contains_key(id) && after.tasks[id].status
                    == TaskStatus::Started;
            let completed = forall|id: Uuid|
                #[trigger] after.tasks.contains_key(id) ==> after.tasks[id].status
                    == TaskStatus::Completed;
            let done = forall|id: Uuid|
                #[trigger] after.tasks.contains_key(id) ==> is_done(after, id, now@);
            let lost = exists|id: Uuid|
                #[trigger] after.tasks.contains_key(id) && is_lost(after, id, now@);
            &&& after.tasks.dom() == before.tasks.dom()
            &&& match picked {
                Ok(TaskPickup::Ready(id)) => {
                    &&& before.tasks.contains_key(id)
                    &&& before.tasks[id].status == TaskStatus::Blocked
                    &&& after.tasks[id] == (TaskView {
                        status: TaskStatus::Todo,
                        ..before.tasks[id]
                    })
                    &&& is_free(after, after.tasks[id], now@)
                    &&& is_taken_into_work(before, after, *worker, now@)
                    &&& forall|other: Uuid|
                        other != id && #[trigger] before.tasks.contains_key(other) ==> is_passed_by(
                            before.tasks[other],
                            after.tasks[other],
                            now@,
                        )
                },
                _ => {
                    &&& forall|id: Uuid| #[trigger]
                        before.tasks.contains_key(id) ==> is_passed_by(
                            before.tasks[id],
                            after.tasks[id],
                            now@,
                        )
                    &&& forall|id: Uuid| #[trigger]
                        after.tasks.contains_key(id) ==> !can_be_taken(after, id, now@) && !(
                        after.tasks[id].status == TaskStatus::Started && is_past(
                            after.tasks[id].lifetime_deadline_at,
                            now@,
                        )) && !(after.tasks[id].status == TaskStatus::Blocked && is_below_a_skip(
                            after,
                            after.tasks[id],
                        ) && !is_cut_off(after, after.tasks[id], now@))
                    &&& if completed {
                        (picked matches Err(e) && e@ is Other) && is_taken_into_work(
                            before,
                            after,
                            *worker,
                            now@,
                        )
                    } else if running {
                        picked == Ok::<TaskPickup, JobError>(TaskPickup::Waiting)
                            && is_taken_into_work(before, after, *worker, now@)
                    } else if done {
                        picked == Ok::<TaskPickup, JobError>(TaskPickup::Settled) && is_ended(
                            before,
                            after,
                            JobStatus::Completed,
                            *worker,
                            now@,
                        )
                    } else if lost {
                        picked == Ok::<TaskPickup, JobError>(TaskPickup::Exhausted) && is_ended(
                            before,
                            after,
                            JobStatus::Failed,
                            *worker,
                            now@,
                        )
                    } else {
                        (picked matches Err(e) && e@ is Other) && is_taken_into_work(
                            before,
                            after,
                            *worker,
                            now@,
                        )
                    }
                },
            }
        }),
{
    let before = old(job)@;
    let after = final(job)@;
    let open = opened(before, *worker, now@);
    let left = gone_through(before, *worker, order@, now@);
    lemma_gone_through(before, *worker, order@, now@);
    lemma_walk_covers(order@, left.tasks);
    lemma_walk_end(left, order@, now@, 0);
    let end = left.walk_end(order@, now@, 0);
    lemma_job_terms(left, now@);
    if end < order@.len() {
        let id = order@[end];
        assert(left.tasks.contains_key(id));
        assert(before.tasks.contains_key(id));
        assert(can_be_taken(left, id, now@));
        assert(is_passed_by(before.tasks[id], left.tasks[id], now@));
        if left.tasks[id] != before.tasks[id] {
            assert(!can_run(left.tasks[id], now@));
        } else {
            assert(!can_run(before.tasks[id], now@));
        }
        assert(left.tasks[id].status == TaskStatus::Blocked);
        assert(after.tasks.dom() =~= before.tasks.dom());
        let task = after.tasks[id];
        assert forall|k: int| 0 <= k < task.depends_on.len() implies accepts(
            after,
            task,
            #[trigger] task.depends_on[k],
            now@,
        ) by {
            assert(accepts(left, left.tasks[id], left.tasks[id].depends_on[k], now@));
        }
    } else {
        assert(after.tasks == left.tasks);
        assert forall|id: Uuid| #[trigger] after.tasks.contains_key(id) implies !can_be_taken(
            after,
            id,
            now@,
        ) && is_done(after, id, now@) == is_done(left, id, now@) && is_lost(after, id, now@)
            == is_lost(left, id, now@) by {
            assert(order@.contains(id));
            let j = choose|j: int| 0 <= j < order@.len() && order@[j] == id;
            assert(!left.is_decisive(order@[j], now@));
            lemma_same_tasks(left, after, id, now@);
        }
        assert forall|id: Uuid| #[trigger] after.tasks.contains_key(id) implies !(
        after.tasks[id].status == TaskStatus::Blocked && is_below_a_skip(after, after.tasks[id])
            && !is_cut_off(after, after.tasks[id], now@)) by {
            assert(left.tasks.contains_key(id));
            assert(is_below_a_skip(after, after.tasks[id]) == is_below_a_skip(left, left.tasks[id]));
            assert(is_cut_off(after, after.tasks[id], now@) == is_cut_off(
                left,
                left.tasks[id],
                now@,
            ));
        }
        assert forall|id: Uuid| #[trigger] after.tasks.contains_key(id) implies !(
        after.tasks[id].status == TaskStatus::Started && is_past(
            after.tasks[id].lifetime_deadline_at,
            now@,
        )) by {
            assert(before.tasks.contains_key(id));
        }
        if !(forall|id: Uuid|
            #[trigger] after.tasks.contains_key(id) ==> is_done(after, id, now@)) && !(exists|
            id: Uuid,
        |
            #[trigger] after.tasks.contains_key(id) && is_lost(after, id, now@)) && !(exists|
            id: Uuid,
        |
            #[trigger] after.tasks.contains_key(id) && after.tasks[id].status
                == TaskStatus::Started) {
            let id = choose|id: Uuid|
                #[trigger] after.tasks.contains_key(id) && !is_done(after, id, now@);
            assert(!can_be_taken(after, id, now@));
            assert(left.tasks.contains_key(id));
            assert(!can_be_taken(left, id, now@));
            assert(left.tasks[id].status == TaskStatus::Blocked && !is_free(
                left,
                left.tasks[id],
                now@,
            ));
        }
    }
}

/// A worker that looks for work in an iteration that is over is refused, and changes nothing.
pub proof fn law_ended_iteration_offers_no_work(
    job: &mut Job,
    worker: &Uuid,
    order: &Vec<Uuid>,
    now: Moment,
    picked: Result<TaskPickup, JobError>,
)
    requires
        call_ensures(Job::pick_in_order, (job, worker, order, now), picked),
        is_over(old(job)@),
    ensures
        final(job)@ == old(job)@,
        picked matches Err(e) && e@ == (JobErrorView::InvalidStatusTransition {
            from: old(job)@.status,
            to: JobStatus::Running,
        }),
{
}

/// A worker that reads the clock and the order of the map finds what one with some order at some moment
/// finds.
pub proof fn law_work_is_looked_for_in_some_order(
    job: &mut Job,
    worker: &Uuid,
    picked: Result<TaskPickup, JobError>,
)
    requires
        call_ensures(Job::pick_task_to_execute, (job, worker), picked),
    ensures
        exists|order: Seq<Uuid>, now: int|
            #![trigger is_walk(order, old(job)@.tasks), is_dated(now)]
            is_walk(order, old(job)@.tasks) && is_dated(now) && final(job)@ == old(job)@.picked(
                *worker,
                order,
                now,
            ).0 && (picked matches Ok(pickup) ==> old(job)@.picked(*worker, order, now).1 == Ok::<
                TaskPickup,
                JobErrorView,
            >(pickup)) && (picked matches Err(e) ==> old(job)@.picked(*worker, order, now).1 == Err::<
                TaskPickup,
                JobErrorView,
            >(e@)),
{
}

// Ending

/// Trying to complete a running iteration first gives up the branches below skipped tasks, and then ends
/// it as completed exactly where every task is done. Nothing else about it changes.
pub proof fn law_iteration_completes_exactly_when_every_task_is_done(
    job: &mut Job,
    worker: &Uuid,
    now: Moment,
    ended: Result<bool, JobError>,
)
    requires
        call_ensures(Job::try_to_complete_at, (job, worker, now), ended),
        old(job)@.status == JobStatus::Running,
        old(job)@.tasks.dom().finite(),
    ensures
        ({
            let before = old(job)@;
            let after = final(job)@;
            let done = before.tasks.dom().len() > 0 && forall|id: Uuid|
                #[trigger] after.tasks.contains_key(id) ==> is_done(after, id, now@);
            &&& ended == Ok::<bool, JobError>(done)
            &&& after.tasks.dom() == before.tasks.dom()
            &&& forall|id: Uuid| #[trigger]
                before.tasks.contains_key(id) ==> after.tasks[id] == before.tasks[id] || (
                is_passed_by(before.tasks[id], after.tasks[id], now@) && before.tasks[id].status
                    == TaskStatus::Blocked && is_below_a_skip(after, before.tasks[id])
                    && !is_cut_off(after, before.tasks[id], now@))
            &&& forall|id: Uuid| #[trigger]
                after.tasks.contains_key(id) ==> !(after.tasks[id].status == TaskStatus::Blocked
                    && is_below_a_skip(after, after.tasks[id]) && !is_cut_off(
                    after,
                    after.tasks[id],
                    now@,
                ))
            &&& done ==> is_ended(before, after, JobStatus::Completed, *worker, now@)
            &&& !done ==> after == (JobView { tasks: after.tasks, ..before })
        }),
{
    let before = old(job)@;
    let after = final(job)@;
    let left = before.branches_given_up(now@);
    let count = before.tasks.dom().len();
    lemma_given_up_fit(before, count, now@);
    lemma_given_up_reason(before, count, now@);
    lemma_branches_given_up(before, now@);
    lemma_job_terms(left, now@);
    assert(after.tasks == left.tasks);
    assert forall|id: Uuid| #[trigger] after.tasks.contains_key(id) implies is_done(
        after,
        id,
        now@,
    ) == is_done(left, id, now@) && !(after.tasks[id].status == TaskStatus::Blocked
        && is_below_a_skip(after, after.tasks[id]) && !is_cut_off(
        after,
        after.tasks[id],
        now@,
    )) by {
        assert(left.tasks.contains_key(id));
        lemma_same_tasks(left, after, id, now@);
        lemma_task_terms(left, id, now@);
        assert(is_below_a_skip(after, after.tasks[id]) == is_below_a_skip(left, left.tasks[id]));
        assert(is_cut_off(after, after.tasks[id], now@) == is_cut_off(left, left.tasks[id], now@));
    }
    assert forall|id: Uuid| #[trigger] before.tasks.contains_key(id) implies after.tasks[id]
        == before.tasks[id] || (is_passed_by(before.tasks[id], after.tasks[id], now@)
        && before.tasks[id].status == TaskStatus::Blocked && is_below_a_skip(
        after,
        before.tasks[id],
    ) && !is_cut_off(after, before.tasks[id], now@)) by {
        assert(is_below_a_skip(after, before.tasks[id]) == is_below_a_skip(left, before.tasks[id]));
        assert(is_cut_off(after, before.tasks[id], now@) == is_cut_off(
            left,
            before.tasks[id],
            now@,
        ));
    }
}

/// An iteration that is not running is never completed, and trying to changes nothing.
pub proof fn law_only_a_running_iteration_is_completed(
    job: &mut Job,
    worker: &Uuid,
    now: Moment,
    ended: Result<bool, JobError>,
)
    requires
        call_ensures(Job::try_to_complete_at, (job, worker, now), ended),
        old(job)@.status != JobStatus::Running,
    ensures
        final(job)@ == old(job)@,
        ended != Ok::<bool, JobError>(true),
        ended matches Err(e) ==> e@ == (JobErrorView::InvalidStatusTransition {
            from: old(job)@.status,
            to: JobStatus::Completed,
        }),
        (forall|id: Uuid| #[trigger]
            old(job)@.tasks.contains_key(id) ==> is_done(old(job)@, id, now@)) && old(
            job,
        )@.tasks.dom().len() > 0 <==> ended is Err,
{
    lemma_job_terms(old(job)@, now@);
}

/// Taking an iteration into work and failing it are possible exactly while it is not over, and change
/// its state, its worker and the moment alone.
pub proof fn law_open_iterations_are_worked_on_and_failed(
    job: &mut Job,
    worker: &Uuid,
    now: Moment,
    done: Result<(), JobError>,
)
    ensures
        call_ensures(Job::work_at, (job, worker, now), done) ==> {
            &&& done is Ok <==> !is_over(old(job)@)
            &&& done is Err ==> final(job)@ == old(job)@
            &&& done is Ok ==> final(job)@ == (JobView {
                status: JobStatus::Running,
                updated_by_worker_id: *worker,
                running_at: Some(now@),
                ..old(job)@
            })
        },
        call_ensures(Job::fail_at, (job, worker, now), done) ==> {
            &&& done is Ok <==> !is_over(old(job)@)
            &&& done is Err ==> final(job)@ == old(job)@
            &&& done is Ok ==> final(job)@ == (JobView {
                status: JobStatus::Failed,
                updated_by_worker_id: *worker,
                completed_at: Some(now@),
                ..old(job)@
            })
        },
{
}

/// An iteration counts as settled exactly where every task is done, and whether it is depends on its
/// tasks alone.
pub proof fn law_settled_means_done(job: JobView, same: JobView, now: int)
    requires
        job.tasks == same.tasks,
    ensures
        job.is_settled_at(now) <==> same.tasks.dom().len() > 0 && forall|id: Uuid|
            #[trigger] same.tasks.contains_key(id) ==> is_done(same, id, now),
{
    lemma_job_terms(job, now);
    assert forall|id: Uuid| #[trigger] same.tasks.contains_key(id) implies is_done(job, id, now)
        == is_done(same, id, now) by {
        lemma_same_tasks(job, same, id, now);
    }
    if forall|id: Uuid| #[trigger] same.tasks.contains_key(id) ==> is_done(same, id, now) {
        assert forall|id: Uuid| #[trigger] job.tasks.contains_key(id) implies is_done(job, id, now) by {
            assert(same.tasks.contains_key(id));
        }
    }
}

} // verus!
