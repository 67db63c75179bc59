//! Jobs as contracts speak of them: what every operation on a job comes to.

use vstd::prelude::*;

use crate::definition::{JobDefinitionView, TaskLimits};
use crate::error::{JobError, JobErrorView};
use crate::job::Job;
use crate::status::{JobStatus, SkipCause, TaskRetry, TaskStatus};
use crate::task::{
    idle_tolerance_text, DependencyVerdict, Task, TaskAvailability, TaskDefinitionView, TaskRef,
    TaskRefKind, TaskView, Uuid,
};
use crate::text::{decimal, uuid_text};
use crate::time::{is_dated, is_delta, moment_text, whole_millis};

verus! {

/// A value of `serde_json`, which jobs carry in their metadata without looking into it.
#[verifier::external_type_specification]
#[verifier::external_body]
pub struct ExValue(serde_json::Value);

/// The tasks of an iteration as contracts speak of them.
pub open spec fn tasks_of(tasks: Map<Uuid, Task>) -> Map<Uuid, TaskView> {
    tasks.map_values(|task: Task| task@)
}

/// What a task says of how its iteration ends.
#[derive(Debug, Clone, Copy, PartialEq, Eq, Structural)]
pub enum TaskSettlement {
    /// Nothing yet: the task may still run, or still waits.
    Open,
    /// The task came to an end, and left no failure that nobody answered for.
    Settled,
    /// A failure that nothing answers for.
    Failure,
}

/// Outcome of selecting a task to execute in the current job iteration.
#[derive(Debug, Clone, Copy, PartialEq, Eq, Structural)]
pub enum TaskPickup {
    /// The task is ready to be started by the caller.
    Ready(Uuid),
    /// Nothing can be started right now: the remaining tasks are either in flight or blocked behind
    /// tasks that are still running.
    Waiting,
    /// The iteration cannot progress because tasks ran out of their attempt budget or of their
    /// maximum lifetime; the job has been moved to [`JobStatus::Failed`]. The caller must persist the
    /// job so the scheduler starts the next iteration, which replans from scratch.
    Exhausted,
    /// Nothing is left to do and no failure is left unhandled, though not every task completed; the
    /// job has been moved to [`JobStatus::Completed`]. The caller must persist it.
    Settled,
}

/// An [`IterationStep`] as contracts speak of it.
pub enum IterationStepView {
    /// The current iteration is open: its tasks can be taken into work.
    IterationInProgress,
    /// The current iteration ended and the next one is allowed now.
    NextIterationReady,
    /// The current iteration ended; the next one is allowed no earlier than the given moment.
    NextIterationDueAt(int),
    /// The current iteration ended and the job spent its iteration budget.
    IterationBudgetSpent,
    /// The current iteration ended, but no moment for the next one can be derived.
    NextIterationUnscheduled,
}

/// A [`Job`] as contracts speak of it. Moments are nanoseconds from the Unix epoch and the interval
/// is in nanoseconds.
#[verifier::ext_equal]
pub struct JobView {
    /// Identifier of the job, the same for every iteration.
    pub id: Uuid,
    /// Code of the job's description.
    pub code: Seq<char>,
    /// Number of the current iteration, counted from 1.
    pub iter_num: u64,
    /// State of the current iteration.
    pub status: JobStatus,
    /// Tasks of the current iteration.
    pub tasks: Map<Uuid, TaskView>,
    /// Worker that changed the job last.
    pub updated_by_worker_id: Uuid,
    /// Start of the current iteration.
    pub started_at: int,
    /// Moment the iteration was taken into work last.
    pub running_at: Option<int>,
    /// Moment the iteration ended.
    pub completed_at: Option<int>,
    /// Earliest moment of the next iteration, where one was set.
    pub next_start_at: Option<int>,
    /// Values the job carries along.
    pub metadata: Map<String, serde_json::Value>,
    /// Version of the stored state this copy was read from.
    pub version: Seq<char>,
    /// Iteration cap, or `None` for an endlessly repeating job.
    pub max_iterations: Option<u64>,
    /// Minimum delay between the starts of consecutive iterations.
    pub iteration_interval: Option<int>,
    /// Payload size caps.
    pub task_limits: TaskLimits,
}

/// The identifiers a list of references names, where `ids` holds the identifier of every initial
/// task; or what the first reference that names no initial task is told.
pub open spec fn resolved_references(references: Seq<TaskRef>, ids: Seq<Uuid>) -> Result<
    Seq<Uuid>,
    Seq<char>,
>
    decreases references.len(),
{
    if references.len() == 0 {
        Ok(Seq::empty())
    } else {
        match resolved_references(references.drop_last(), ids) {
            Err(message) => Err(message),
            Ok(resolved) => match references.last()@ {
                TaskRefKind::Initial { job_definition, position } => if position < ids.len() {
                    Ok(resolved.push(ids[position as int]))
                } else {
                    Err(
                        "dependency reference "@ + decimal(position as int)
                            + " is out of range"@,
                    )
                },
                TaskRefKind::Created(id) => Err(
                    "initial task cannot depend on task '"@ + uuid_text(id)
                        + "' created at runtime"@,
                ),
            },
        }
    }
}

/// The tasks an iteration starts with: a fresh one per definition, under the identifier `ids` holds
/// for it; or what the first definition with a reference to no initial task is told.
///
/// `count` says how many of the definitions have been turned into tasks.
pub open spec fn planned_tasks(
    definitions: Seq<TaskDefinitionView>,
    ids: Seq<Uuid>,
    worker: Uuid,
    count: int,
) -> Result<Map<Uuid, TaskView>, Seq<char>>
    decreases count,
{
    if count <= 0 {
        Ok(Map::empty())
    } else {
        match planned_tasks(definitions, ids, worker, count - 1) {
            Err(message) => Err(message),
            Ok(tasks) => {
                let definition = definitions[count - 1];
                let id = ids[count - 1];
                match resolved_references(definition.depends_on, ids) {
                    Err(message) => Err(message),
                    Ok(depends_on) => Ok(
                        tasks.insert(id, TaskView::fresh(id, worker, None, definition, depends_on)),
                    ),
                }
            },
        }
    }
}

/// The tasks of a list by their identifiers, a later one replacing an earlier one.
pub open spec fn tasks_by_id(tasks: Seq<Task>) -> Map<Uuid, TaskView>
    decreases tasks.len(),
{
    if tasks.len() == 0 {
        Map::empty()
    } else {
        tasks_by_id(tasks.drop_last()).insert(tasks.last()@.id, tasks.last()@)
    }
}

/// What a task is skipped with whose branch was given up on.
pub open spec fn given_up_text() -> Seq<char> {
    "dependency skipped"@
}

/// What a task that outlived its maximum lifetime is failed with: the limit, and the moment it was
/// reached.
pub open spec fn outlived_lifetime_text(task: TaskView) -> Seq<char> {
    "task outlived its maximum lifetime of "@ + decimal(whole_millis(task.max_lifetime))
        + " ms (lifetime deadline "@ + (match task.lifetime_deadline_at {
        Some(deadline) => moment_text(deadline),
        None => "unset"@,
    }) + ")"@
}

/// Whether `order` names every task of `tasks` exactly once.
pub open spec fn is_walk(order: Seq<Uuid>, tasks: Map<Uuid, TaskView>) -> bool {
    order.no_duplicates() && order.to_set() == tasks.dom()
}

/// The entries of a task list in words, in the order given.
pub open spec fn task_entries(tasks: Map<Uuid, TaskView>, order: Seq<Uuid>) -> Seq<char>
    decreases order.len(),
{
    if order.len() == 0 {
        Seq::empty()
    } else {
        let id = order.last();
        task_entries(tasks, order.drop_last()) + "id: "@ + uuid_text(id) + "; code: "@
            + tasks[id].code + "; status: "@ + tasks[id].status.label() + "; "@
    }
}

/// The first tasks of a list in words, an ellipsis standing for those after the fourth.
pub open spec fn task_summary(tasks: Map<Uuid, TaskView>, order: Seq<Uuid>) -> Seq<char> {
    if order.len() < 4 {
        task_entries(tasks, order)
    } else {
        task_entries(tasks, order.take(4)) + "..."@
    }
}

impl JobView {
    /// Whether the tasks are filed under their own identifiers and have room for their next start.
    pub open spec fn well_formed(self) -> bool {
        &&& self.tasks.dom().finite()
        &&& forall|id: Uuid| #[trigger]
            self.tasks.contains_key(id) ==> self.tasks[id].id == id
                && self.tasks[id].has_room_to_start()
    }

    /// The first iteration of the job `definition` describes.
    pub open spec fn fresh(
        id: Uuid,
        definition: JobDefinitionView,
        metadata: Map<String, serde_json::Value>,
        worker: Uuid,
        tasks: Map<Uuid, TaskView>,
        now: int,
    ) -> JobView {
        JobView {
            id,
            code: definition.code,
            iter_num: 1,
            status: JobStatus::Started,
            tasks,
            updated_by_worker_id: worker,
            started_at: now,
            running_at: None,
            completed_at: None,
            next_start_at: None,
            metadata,
            version: Seq::empty(),
            max_iterations: definition.max_iterations,
            iteration_interval: definition.iteration_interval,
            task_limits: definition.task_limits,
        }
    }

    /// The iteration after this one: planned afresh, under the same identifier and with the same
    /// metadata.
    pub open spec fn next(
        self,
        definition: JobDefinitionView,
        worker: Uuid,
        tasks: Map<Uuid, TaskView>,
        now: int,
    ) -> JobView {
        JobView {
            iter_num: (self.iter_num + 1) as u64,
            ..JobView::fresh(self.id, definition, self.metadata, worker, tasks, now)
        }
    }

    /// Whether the current iteration ended.
    pub open spec fn is_processed(self) -> bool {
        self.status == JobStatus::Completed || self.status == JobStatus::Failed
    }

    /// Whether the job spent its iteration budget.
    pub open spec fn is_iteration_limit_reached(self) -> bool {
        self.max_iterations matches Some(max_iterations) && self.iter_num >= max_iterations
    }

    /// Earliest moment the next iteration is allowed at, or `None` where no moment follows from the
    /// state: the iteration is open, the budget is spent, or the interval names no moment.
    ///
    /// A moment that was set takes precedence over the interval in both directions.
    pub open spec fn next_iteration_due_at(self) -> Option<int> {
        if !self.is_processed() || self.is_iteration_limit_reached() {
            None
        } else if self.next_start_at is Some {
            self.next_start_at
        } else {
            match self.iteration_interval {
                None => Some(self.started_at),
                Some(interval) => if is_delta(interval) && is_dated(self.started_at + interval) {
                    Some(self.started_at + interval)
                } else {
                    None
                },
            }
        }
    }

    /// What the state allows to be done at `now` about the next iteration.
    ///
    /// A spent iteration budget outranks a due moment.
    pub open spec fn iteration_step_at(self, now: int) -> IterationStepView {
        if !self.is_processed() {
            IterationStepView::IterationInProgress
        } else if self.is_iteration_limit_reached() {
            IterationStepView::IterationBudgetSpent
        } else {
            match self.next_iteration_due_at() {
                Some(due) => if now >= due {
                    IterationStepView::NextIterationReady
                } else {
                    IterationStepView::NextIterationDueAt(due)
                },
                None => IterationStepView::NextIterationUnscheduled,
            }
        }
    }

    /// Why the next iteration cannot be started at `now` with these identifiers, or `None` where it
    /// can.
    pub open spec fn next_iteration_refusal(
        self,
        definition: JobDefinitionView,
        ids: Seq<Uuid>,
        worker: Uuid,
        now: int,
    ) -> Option<JobErrorView> {
        if self.iteration_step_at(now) != IterationStepView::NextIterationReady {
            Some(JobErrorView::Other("job is not ready to next iteration"@))
        } else {
            match planned_tasks(
                definition.initial_tasks,
                ids,
                worker,
                definition.initial_tasks.len() as int,
            ) {
                Ok(_) => None,
                Err(message) => Some(JobErrorView::Other(message)),
            }
        }
    }

    /// The job with `task` filed under `id`.
    pub open spec fn with_task(self, id: Uuid, task: TaskView) -> JobView {
        JobView { tasks: self.tasks.insert(id, task), ..self }
    }

    /// Why a task created at runtime cannot wait for what `references` name: the first one that is
    /// positional or that names a task the iteration does not hold.
    pub open spec fn reference_refusal(self, references: Seq<TaskRef>) -> Option<Seq<char>>
        decreases references.len(),
    {
        if references.len() == 0 {
            None
        } else {
            match self.reference_refusal(references.drop_last()) {
                Some(message) => Some(message),
                None => match references.last()@ {
                    TaskRefKind::Initial { job_definition, position } => Some(
                        "task created at runtime cannot depend on initial task position "@
                            + decimal(position as int),
                    ),
                    TaskRefKind::Created(id) => if self.tasks.contains_key(id) {
                        None
                    } else {
                        Some("dependency task '"@ + uuid_text(id) + "' not found"@)
                    },
                },
            }
        }
    }

    /// Why a task cannot be added to the iteration, or `None` where it can.
    pub open spec fn addition_refusal(
        self,
        definition: TaskDefinitionView,
        created_by_task: Option<Uuid>,
    ) -> Option<JobErrorView> {
        match definition.rejection(self.task_limits) {
            Some(message) => Some(JobErrorView::Other(message)),
            None => if definition.tolerates_nothing() {
                Some(JobErrorView::Other(idle_tolerance_text()))
            } else if created_by_task is Some && !self.tasks.contains_key(
                created_by_task->Some_0,
            ) {
                Some(JobErrorView::TaskNotFound)
            } else if created_by_task is Some && self.tasks[created_by_task->Some_0].status
                == TaskStatus::Failed {
                Some(
                    JobErrorView::Other(
                        "task '"@ + uuid_text(created_by_task->Some_0)
                            + "' cannot create a task: its execution failed and what it created was rolled back"@,
                    ),
                )
            } else {
                match self.reference_refusal(definition.depends_on) {
                    Some(message) => Some(JobErrorView::Other(message)),
                    None => None,
                }
            },
        }
    }

    /// Why `worker` cannot start the task at `now`, or `None` where it can.
    pub open spec fn start_refusal(self, id: Uuid, worker: Uuid, now: int) -> Option<JobErrorView> {
        if !self.tasks.contains_key(id) {
            Some(JobErrorView::TaskNotFound)
        } else {
            self.tasks[id].start_refusal(worker, now)
        }
    }

    /// The job once `worker` started the task at `now`.
    pub open spec fn task_started(self, id: Uuid, worker: Uuid, now: int) -> JobView {
        JobView {
            updated_by_worker_id: worker,
            ..self.with_task(id, self.tasks[id].started(worker, now))
        }
    }

    /// Why `output` cannot be stored at `now` as the task's result, or `None` where it can.
    pub open spec fn completion_refusal(self, id: Uuid, output: Seq<u8>, now: int) -> Option<
        JobErrorView,
    > {
        if output.len() > self.task_limits.max_output_bytes {
            Some(
                JobErrorView::Other(
                    "task output size "@ + decimal(output.len() as int) + " exceeds limit "@
                        + decimal(self.task_limits.max_output_bytes as int),
                ),
            )
        } else if !self.tasks.contains_key(id) {
            Some(JobErrorView::TaskNotFound)
        } else {
            self.tasks[id].completion_refusal(now)
        }
    }

    /// Why the task cannot be failed, or `None` where it can.
    pub open spec fn failure_refusal(self, id: Uuid) -> Option<JobErrorView> {
        if !self.tasks.contains_key(id) {
            Some(JobErrorView::TaskNotFound)
        } else {
            self.tasks[id].failure_refusal()
        }
    }

    /// The job without the tasks the running execution of `id` created.
    pub open spec fn without_children(self, id: Uuid) -> JobView {
        JobView {
            tasks: Map::new(
                |k: Uuid|
                    self.tasks.contains_key(k) && self.tasks[k].created_by_task != Some(id),
                |k: Uuid| self.tasks[k],
            ),
            ..self
        }
    }

    /// The job once the task failed at `now` and what its execution created was dropped.
    pub open spec fn task_failed(
        self,
        id: Uuid,
        reason: Seq<char>,
        retry: TaskRetry,
        now: int,
    ) -> JobView {
        self.with_task(id, self.tasks[id].failed(reason, retry, now)).without_children(id)
    }

    /// Whether every task completed, and there is one at all.
    pub open spec fn all_tasks_completed(self) -> bool {
        &&& self.tasks.dom().len() > 0
        &&& forall|id: Uuid| #[trigger]
            self.tasks.contains_key(id) ==> self.tasks[id].status == TaskStatus::Completed
    }

    /// Whether nothing that `task` waits for holds it back at `now`: each of them completed, or settled
    /// in a way `task` declared it tolerates.
    pub open spec fn dependencies_satisfied(self, task: TaskView, now: int) -> bool {
        forall|k: int|
            0 <= k < task.depends_on.len() ==> self.tasks.contains_key(
                #[trigger] task.depends_on[k],
            ) && task.judgement(self.tasks[task.depends_on[k]], now)
                == DependencyVerdict::Unblocked
    }

    /// Whether a worker is executing a task of the iteration.
    pub open spec fn has_started_task(self) -> bool {
        exists|id: Uuid| #[trigger]
            self.tasks.contains_key(id) && self.tasks[id].status == TaskStatus::Started
    }

    /// Whether a task that waited for `id` answers for its failure.
    pub open spec fn is_answered_for(self, id: Uuid) -> bool {
        exists|dependent: Uuid| #[trigger]
            self.tasks.contains_key(dependent) && self.tasks[dependent].answers_for(id)
    }

    /// Whether `task` waits for something that will never settle the way it accepts, for `cause`.
    pub open spec fn is_held_by(self, task: TaskView, cause: SkipCause, now: int) -> bool {
        exists|k: int|
            0 <= k < task.depends_on.len() && self.tasks.contains_key(
                #[trigger] task.depends_on[k],
            ) && task.judgement(self.tasks[task.depends_on[k]], now) == DependencyVerdict::Skipped(
                cause,
            )
    }

    /// Whether `task` lies on a branch that was given up on: it waits for something that was skipped,
    /// which it does not accept, and no failure keeps it from running.
    pub open spec fn is_given_up(self, task: TaskView, now: int) -> bool {
        &&& task.status == TaskStatus::Blocked
        &&& self.is_held_by(task, SkipCause::SkippedDependency, now)
        &&& !self.is_held_by(task, SkipCause::FailedDependency, now)
    }

    /// The job with every task that lies on a branch given up on skipped at `now` for that. What waits
    /// for those comes to lie on such a branch in turn.
    pub open spec fn next_given_up(self, now: int) -> JobView {
        JobView {
            tasks: Map::new(
                |id: Uuid| self.tasks.contains_key(id),
                |id: Uuid|
                    if self.is_given_up(self.tasks[id], now) {
                        self.tasks[id].skipped(
                            given_up_text(),
                            SkipCause::SkippedDependency,
                            now,
                        )
                    } else {
                        self.tasks[id]
                    },
            ),
            ..self
        }
    }

    /// The job once branches were given up `steps` tasks down.
    pub open spec fn given_up(self, steps: nat, now: int) -> JobView
        decreases steps,
    {
        if steps == 0 {
            self
        } else {
            self.next_given_up(now).given_up((steps - 1) as nat, now)
        }
    }

    /// The job with the branches below skipped tasks given up, down to where a task tolerates it.
    pub open spec fn branches_given_up(self, now: int) -> JobView {
        self.given_up(self.tasks.dom().len(), now)
    }

    /// What the task says at `now` of how its iteration ends.
    ///
    /// A failure for good is one the iteration ends with, unless a dependent that declared it survives
    /// one resolved on its own. A task that a failure keeps from ever running, put out already or
    /// still blocked, is that failure surfacing one step further down the graph.
    pub open spec fn settlement_at(self, id: Uuid, now: int) -> TaskSettlement {
        let task = self.tasks[id];
        match task.status {
            TaskStatus::Completed => TaskSettlement::Settled,
            TaskStatus::Skipped(SkipCause::FailedDependency) => TaskSettlement::Failure,
            TaskStatus::Skipped(_) => TaskSettlement::Settled,
            TaskStatus::Failed => if !task.is_terminally_failed_at(now) {
                TaskSettlement::Open
            } else if self.is_answered_for(id) {
                TaskSettlement::Settled
            } else {
                TaskSettlement::Failure
            },
            TaskStatus::Blocked => if self.is_held_by(task, SkipCause::FailedDependency, now) {
                TaskSettlement::Failure
            } else {
                TaskSettlement::Open
            },
            TaskStatus::Todo | TaskStatus::Started => TaskSettlement::Open,
        }
    }

    /// Whether every task came to an end at `now` and left no failure unhandled, and there is one at
    /// all.
    pub open spec fn is_settled_at(self, now: int) -> bool {
        &&& self.tasks.dom().len() > 0
        &&& forall|id: Uuid| #[trigger]
            self.tasks.contains_key(id) ==> self.settlement_at(id, now) == TaskSettlement::Settled
    }

    /// Whether a task of the iteration leaves a failure that nothing answers for.
    pub open spec fn has_unhandled_failure_at(self, now: int) -> bool {
        exists|id: Uuid| #[trigger]
            self.tasks.contains_key(id) && self.settlement_at(id, now) == TaskSettlement::Failure
    }

    /// Whether a task waits at `now` for something that holds it back.
    pub open spec fn is_deadlocked_at(self, now: int) -> bool {
        exists|id: Uuid| #[trigger]
            self.tasks.contains_key(id) && self.tasks[id].status == TaskStatus::Blocked
                && !self.dependencies_satisfied(self.tasks[id], now)
    }

    /// The job taken into work by `worker` at `now`.
    pub open spec fn working(self, worker: Uuid, now: int) -> JobView {
        JobView {
            status: JobStatus::Running,
            updated_by_worker_id: worker,
            running_at: Some(now),
            ..self
        }
    }

    /// The job with its iteration ended as `status` by `worker` at `now`.
    pub open spec fn ended(self, status: JobStatus, worker: Uuid, now: int) -> JobView {
        JobView {
            status,
            updated_by_worker_id: worker,
            completed_at: Some(now),
            ..self
        }
    }

    /// Whether a worker looking for work stops at the task: it can be started, or it is blocked
    /// behind nothing any longer.
    pub open spec fn is_decisive(self, id: Uuid, now: int) -> bool {
        self.tasks[id].availability_at(now) == TaskAvailability::Pickable || (self.tasks[id].status
            == TaskStatus::Blocked && self.dependencies_satisfied(self.tasks[id], now))
    }

    /// Where a worker that walks the tasks in `order`, from position `from` on, stops: the first task
    /// it can do something about, or the end of the walk.
    pub open spec fn walk_end(self, order: Seq<Uuid>, now: int, from: int) -> int
        decreases order.len() - from,
    {
        if from >= order.len() {
            order.len() as int
        } else if self.is_decisive(order[from], now) {
            from
        } else {
            self.walk_end(order, now, from + 1)
        }
    }

    /// The job with the tasks among `walked` that outlived their maximum lifetime failed for it.
    pub open spec fn lifetimes_ended(self, walked: Seq<Uuid>, now: int) -> JobView {
        JobView {
            tasks: Map::new(
                |id: Uuid| self.tasks.contains_key(id),
                |id: Uuid|
                    if walked.contains(id) && self.tasks[id].availability_at(now)
                        == TaskAvailability::ExpiredPastLifetime {
                        self.tasks[id].failed(
                            outlived_lifetime_text(self.tasks[id]),
                            TaskRetry::WhileBudgetLasts,
                            now,
                        )
                    } else {
                        self.tasks[id]
                    },
            ),
            ..self
        }
    }

    /// What becomes of an iteration in which a worker found nothing to start.
    ///
    /// Tasks that spent either limit can never run again, and neither can whatever is held back behind
    /// them. While another task is still in flight it may yet unblock work; otherwise such a failure
    /// ends the iteration, unless a dependent answered for it, and the next one replans from scratch.
    /// An iteration in which nothing is left to do, and no failure is left unhandled, is completed; one
    /// whose tasks all completed should have ended with the last of them.
    pub open spec fn verdict(self, worker: Uuid, now: int) -> (JobView, Result<
        TaskPickup,
        JobErrorView,
    >) {
        if self.all_tasks_completed() {
            (
                self,
                Err(
                    JobErrorView::Other(
                        "wrong running job "@ + self.code + " state - all tasks complete"@,
                    ),
                ),
            )
        } else if self.has_started_task() {
            (self, Ok(TaskPickup::Waiting))
        } else if self.is_settled_at(now) {
            (self.ended(JobStatus::Completed, worker, now), Ok(TaskPickup::Settled))
        } else if self.has_unhandled_failure_at(now) {
            (self.ended(JobStatus::Failed, worker, now), Ok(TaskPickup::Exhausted))
        } else if self.is_deadlocked_at(now) {
            (
                self,
                Err(
                    JobErrorView::Other(
                        "job "@ + self.code + " deadlock: blocked tasks with unmet dependencies"@,
                    ),
                ),
            )
        } else {
            (self, Ok(TaskPickup::Waiting))
        }
    }

    /// What `worker` finds to do at `now`, walking the tasks in `order`, and the job it leaves.
    ///
    /// The first task that can be started is taken as it is; a blocked one that nothing holds back any
    /// longer is unblocked and taken. Unless a startable task ended the walk, the tasks passed on the
    /// way that outlived their maximum lifetime are failed. Where the walk found nothing, the branches
    /// below skipped tasks are given up. What became of these tasks may be what one that tolerates it
    /// was waiting for, so the tasks are walked once more.
    pub open spec fn picked(self, worker: Uuid, order: Seq<Uuid>, now: int) -> (JobView, Result<
        TaskPickup,
        JobErrorView,
    >) {
        if self.is_processed() {
            (
                self,
                Err(
                    JobErrorView::InvalidStatusTransition {
                        from: self.status,
                        to: JobStatus::Running,
                    },
                ),
            )
        } else {
            let job = if self.status == JobStatus::Running {
                self
            } else {
                self.working(worker, now)
            };
            let end = job.walk_end(order, now, 0);
            if end < order.len() && job.tasks[order[end]].status != TaskStatus::Blocked {
                (job, Ok(TaskPickup::Ready(order[end])))
            } else {
                let ended = job.lifetimes_ended(order.take(end), now);
                let job = if end < order.len() {
                    ended
                } else {
                    ended.branches_given_up(now)
                };
                let end = if end < order.len() {
                    end
                } else {
                    job.walk_end(order, now, 0)
                };
                if end < order.len() {
                    let id = order[end];
                    (
                        job.with_task(id, job.tasks[id].unblocked()),
                        Ok(TaskPickup::Ready(id)),
                    )
                } else {
                    job.verdict(worker, now)
                }
            }
        }
    }

    /// Why `worker` may not write the task: the stored job does not hold it, or another worker owns
    /// it there.
    pub open spec fn theft(self, id: Uuid, worker: Uuid) -> Option<JobErrorView> {
        if !self.tasks.contains_key(id) {
            Some(JobErrorView::TaskNotFound)
        } else if self.tasks[id].processing_by_worker is Some
            && self.tasks[id].processing_by_worker != Some(worker) {
            Some(JobErrorView::TaskWorkerMismatch)
        } else {
            None
        }
    }

    /// Why the start of a task in `worker_job` cannot be brought into this stored job, or `None`
    /// where it can.
    pub open spec fn picked_merge_refusal(
        self,
        worker_job: JobView,
        worker: Uuid,
        id: Uuid,
    ) -> Option<JobErrorView> {
        if self.id != worker_job.id {
            Some(
                JobErrorView::Other(
                    "merge picked task for job '"@ + self.code + "' failed - IDs are different"@,
                ),
            )
        } else if self.theft(id, worker) is Some {
            self.theft(id, worker)
        } else if !worker_job.tasks.contains_key(id) {
            Some(JobErrorView::TaskNotFound)
        } else if worker_job.tasks[id].status != TaskStatus::Started {
            Some(
                JobErrorView::Other(
                    "merge picked task for job '"@ + self.code
                        + "' failed - worker task is not started by worker '"@ + uuid_text(worker)
                        + "'"@,
                ),
            )
        } else if !self.status.leads_to(worker_job.status) {
            Some(
                JobErrorView::Other(
                    "merge picked task for job '"@ + self.code + "' status failed: "@ + (
                    JobErrorView::InvalidStatusTransition {
                        from: self.status,
                        to: worker_job.status,
                    }).text(),
                ),
            )
        } else {
            None
        }
    }

    /// The stored job once the start of a task in `worker_job` was brought into it.
    pub open spec fn merged_with_picked(self, worker_job: JobView, worker: Uuid, id: Uuid) -> JobView {
        JobView {
            status: worker_job.status,
            updated_by_worker_id: worker,
            running_at: if self.running_at is None {
                worker_job.running_at
            } else {
                self.running_at
            },
            ..self.with_task(id, worker_job.tasks[id])
        }
    }

    /// Why the result of a task in `worker_job` cannot be brought into this stored job, or `None`
    /// where it can.
    pub open spec fn processed_merge_refusal(
        self,
        worker_job: JobView,
        worker: Uuid,
        id: Uuid,
    ) -> Option<JobErrorView> {
        if self.id != worker_job.id {
            Some(
                JobErrorView::Other(
                    "merge job '"@ + self.code + "' failed - IDs are different"@,
                ),
            )
        } else if self.theft(id, worker) is Some {
            self.theft(id, worker)
        } else if !self.status.leads_to(worker_job.status) {
            Some(
                JobErrorView::Other(
                    "merge job '"@ + self.code + "' status failed: "@ + (
                    JobErrorView::InvalidStatusTransition {
                        from: self.status,
                        to: worker_job.status,
                    }).text(),
                ),
            )
        } else {
            None
        }
    }

    /// Whether the task of `worker_job` is one `worker` may write into this stored job: one it
    /// processed, or one its execution created and the stored job does not hold.
    ///
    /// A task the worker created during an *earlier* execution is stored already and may have moved
    /// on there, so the stored one stays.
    pub open spec fn takes_over(self, worker_job: JobView, worker: Uuid, id: Uuid) -> bool {
        worker_job.tasks.contains_key(id) && (worker_job.tasks[id].processing_by_worker == Some(
            worker,
        ) || (worker_job.tasks[id].created_by_worker == worker
            && worker_job.tasks[id].processing_by_worker is None && !self.tasks.contains_key(id)))
    }

    /// The stored job once the result of a task in `worker_job` was brought into it.
    pub open spec fn merged_with_processed(self, worker_job: JobView, worker: Uuid) -> JobView {
        JobView {
            status: worker_job.status,
            tasks: Map::new(
                |id: Uuid| self.tasks.contains_key(id) || self.takes_over(worker_job, worker, id),
                |id: Uuid|
                    if self.takes_over(worker_job, worker, id) {
                        worker_job.tasks[id]
                    } else {
                        self.tasks[id]
                    },
            ),
            updated_by_worker_id: worker,
            completed_at: if worker_job.completed_at is Some {
                worker_job.completed_at
            } else {
                self.completed_at
            },
            running_at: if worker_job.running_at is Some {
                worker_job.running_at
            } else {
                self.running_at
            },
            next_start_at: if worker_job.next_start_at is Some {
                worker_job.next_start_at
            } else {
                self.next_start_at
            },
            ..self
        }
    }
}

/// Whether `created` is what becomes of creating, at `now` and under these identifiers, the job that
/// `definition` describes.
pub open spec fn creates(
    created: Result<Job, JobError>,
    definition: JobDefinitionView,
    metadata: Map<String, serde_json::Value>,
    worker: Uuid,
    id: Uuid,
    task_ids: Seq<Uuid>,
    now: int,
) -> bool {
    match planned_tasks(
        definition.initial_tasks,
        task_ids,
        worker,
        definition.initial_tasks.len() as int,
    ) {
        Ok(tasks) => created matches Ok(job) && job@ == JobView::fresh(
            id,
            definition,
            metadata,
            worker,
            tasks,
            now,
        ) && job@.well_formed(),
        Err(message) => created matches Err(e) && e@ == JobErrorView::Other(message),
    }
}

/// Whether `moved` and `after` are what becomes of starting the next iteration of `before` at `now`
/// under these identifiers.
pub open spec fn moves_on(
    before: JobView,
    after: JobView,
    moved: Result<(), JobError>,
    definition: JobDefinitionView,
    worker: Uuid,
    task_ids: Seq<Uuid>,
    now: int,
) -> bool {
    match before.next_iteration_refusal(definition, task_ids, worker, now) {
        None => {
            let tasks = planned_tasks(
                definition.initial_tasks,
                task_ids,
                worker,
                definition.initial_tasks.len() as int,
            )->Ok_0;
            moved is Ok && after == before.next(definition, worker, tasks, now)
                && after.well_formed()
        },
        Some(error) => moved matches Err(e) && e@ == error && after == before,
    }
}

/// The identifiers that references to runtime tasks name.
pub open spec fn created_ids(references: Seq<TaskRef>) -> Seq<Uuid> {
    references.map_values(
        |reference: TaskRef|
            match reference@ {
                TaskRefKind::Created(id) => id,
                TaskRefKind::Initial { job_definition, position } => 0,
            },
    )
}

/// Whether `added` and `after` are what becomes of adding to `before` the task `definition`
/// describes, under `task_id`.
pub open spec fn adds_task(
    before: JobView,
    after: JobView,
    added: Result<Uuid, JobError>,
    definition: TaskDefinitionView,
    worker: Uuid,
    created_by_task: Option<Uuid>,
    task_id: Uuid,
) -> bool {
    match before.addition_refusal(definition, created_by_task) {
        None => added == Ok::<Uuid, JobError>(task_id) && after == before.with_task(
            task_id,
            TaskView::fresh(
                task_id,
                worker,
                created_by_task,
                definition,
                created_ids(definition.depends_on),
            ),
        ),
        Some(error) => added matches Err(e) && e@ == error && after == before,
    }
}

/// Whether `started` and `after` are what becomes of `worker` starting the task of `before` at `now`.
pub open spec fn starts_task(
    before: JobView,
    after: JobView,
    started: Result<(), JobError>,
    id: Uuid,
    worker: Uuid,
    now: int,
) -> bool {
    match before.start_refusal(id, worker, now) {
        None => started is Ok && after == before.task_started(id, worker, now),
        Some(error) => started matches Err(e) && e@ == error && after == before,
    }
}

/// Whether `completed` and `after` are what becomes of storing `output` as the result of the task of
/// `before` at `now`.
pub open spec fn completes_task(
    before: JobView,
    after: JobView,
    completed: Result<(), JobError>,
    id: Uuid,
    output: Seq<u8>,
    now: int,
) -> bool {
    match before.completion_refusal(id, output, now) {
        None => completed is Ok && after == before.with_task(
            id,
            before.tasks[id].completed(output, now),
        ),
        Some(error) => completed matches Err(e) && e@ == error && after == before,
    }
}

/// Whether `failed` and `after` are what becomes of failing the task of `before` at `now`.
pub open spec fn fails_task(
    before: JobView,
    after: JobView,
    failed: Result<usize, JobError>,
    id: Uuid,
    reason: Seq<char>,
    now: int,
) -> bool {
    match before.failure_refusal(id) {
        None => failed matches Ok(dropped) && after == before.task_failed(
            id,
            reason,
            TaskRetry::WhileBudgetLasts,
            now,
        ) && dropped == before.tasks.dom().len() - after.tasks.dom().len(),
        Some(error) => failed matches Err(e) && e@ == error && after == before,
    }
}

/// Whether `recorded` and `after` are what becomes of the execution of the task of `before` ending in
/// failure at `now`.
pub open spec fn records_failure(
    before: JobView,
    after: JobView,
    recorded: Result<usize, JobError>,
    id: Uuid,
    reason: Seq<char>,
    now: int,
) -> bool {
    if before.tasks.contains_key(id) && before.tasks[id].resolution() is Some {
        recorded == Ok::<usize, JobError>(0) && after == before
    } else {
        fails_task(before, after, recorded, id, reason, now)
    }
}

/// Whether `picked` is the outcome `expected` describes.
pub open spec fn picks(
    picked: Result<TaskPickup, JobError>,
    expected: Result<TaskPickup, JobErrorView>,
) -> bool {
    match expected {
        Ok(pickup) => picked == Ok::<TaskPickup, JobError>(pickup),
        Err(error) => picked matches Err(e) && e@ == error,
    }
}

/// Whether `ended` and `after` are what becomes of trying to complete the iteration of `before` at
/// `now`. The branches below skipped tasks of a running iteration are given up first.
pub open spec fn completes_job(
    before: JobView,
    after: JobView,
    ended: Result<bool, JobError>,
    worker: Uuid,
    now: int,
) -> bool {
    if before.status == JobStatus::Running {
        let job = before.branches_given_up(now);
        if job.is_settled_at(now) {
            ended == Ok::<bool, JobError>(true) && after == job.ended(
                JobStatus::Completed,
                worker,
                now,
            )
        } else {
            ended == Ok::<bool, JobError>(false) && after == job
        }
    } else if !before.is_settled_at(now) {
        ended == Ok::<bool, JobError>(false) && after == before
    } else {
        ended matches Err(e) && e@ == (JobErrorView::InvalidStatusTransition {
            from: before.status,
            to: JobStatus::Completed,
        }) && after == before
    }
}

/// Whether `merged` and `after` are what becomes of bringing the start of a task in `worker_job` into
/// the stored job `before`.
pub open spec fn merges_picked(
    before: JobView,
    after: JobView,
    merged: Result<(), JobError>,
    worker_job: JobView,
    worker: Uuid,
    id: Uuid,
) -> bool {
    match before.picked_merge_refusal(worker_job, worker, id) {
        None => merged is Ok && after == before.merged_with_picked(worker_job, worker, id),
        Some(error) => merged matches Err(e) && e@ == error && after == before,
    }
}

/// Whether `merged` and `after` are what becomes of bringing the result of a task in `worker_job` into
/// the stored job `before`.
pub open spec fn merges_processed(
    before: JobView,
    after: JobView,
    merged: Result<(), JobError>,
    worker_job: JobView,
    worker: Uuid,
    id: Uuid,
) -> bool {
    match before.processed_merge_refusal(worker_job, worker, id) {
        None => merged is Ok && after == before.merged_with_processed(worker_job, worker),
        Some(error) => merged matches Err(e) && e@ == error && after == before,
    }
}

} // verus!
