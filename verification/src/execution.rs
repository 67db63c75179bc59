//! What a worker decides while it processes a job: which step a pass takes, what becomes of an
//! execution, and how a lost race to save the job is settled.

use vstd::prelude::*;

use crate::code::TaskCode;
use crate::error::{
    InternalError, InternalErrorView, JobError, JobErrorView, StorageError, StorageErrorKind,
};
use crate::executors::ExecutorId;
use crate::job::{IterationStep, Job};
use crate::job_view::{is_walk, IterationStepView, JobView, TaskPickup};
use crate::outcome::TaskOutcome;
use crate::poll::JobPassOutcome;
use crate::registry::{registered_executor, JobRegistry};
use crate::retrier::RetryStep;
use crate::status::{JobStatus, TaskRetry};
use crate::task::{Task, Uuid};
use crate::text::{id_text, uuid_text};
use crate::time::{at, is_dated, Duration, Moment};

verus! {

/// What a pass does with the state it loaded.
#[derive(Debug)]
pub enum LoadStep {
    /// The job is there: go on with it.
    Process(Job),
    /// No worker has created the job yet.
    Create,
    /// The pass is over.
    End(JobPassOutcome),
}

/// Decides what a pass does with what loading the job came to.
pub fn after_load(loaded: Result<Job, StorageError>) -> (step: LoadStep)
    ensures
        match loaded {
            Ok(job) => step == LoadStep::Process(job),
            Err(error) => if error@.kind == StorageErrorKind::NotFound {
                step == LoadStep::Create
            } else {
                step == LoadStep::End(JobPassOutcome::Stalled)
            },
        },
{
    match loaded {
        Ok(job) => LoadStep::Process(job),
        Err(error) => {
            if error.is_not_found() {
                LoadStep::Create
            } else {
                LoadStep::End(JobPassOutcome::Stalled)
            }
        },
    }
}

/// The step a pass takes next.
#[derive(Clone, Copy, Debug, PartialEq, Eq)]
pub enum PassStep {
    /// Take a task of the open iteration into work.
    ExecuteTask,
    /// Start the next iteration.
    StartIteration,
    /// The pass is over.
    End(JobPassOutcome),
}

/// How a pass over a job begins.
#[derive(Clone, Copy, Debug, PartialEq, Eq)]
pub struct PassStart {
    /// Whether the iteration the job was found in has ended, which is to be reported before anything
    /// else: starting the next one overwrites its number, and a job that spent its budget stops being
    /// polled at all.
    pub reports_finished: bool,
    /// The step the pass takes.
    pub step: PassStep,
}

/// Whether `step` is what a job whose state allows `allowed` calls for.
pub open spec fn answers_step(step: PassStep, allowed: IterationStepView) -> bool {
    match allowed {
        IterationStepView::IterationInProgress => step == PassStep::ExecuteTask,
        IterationStepView::NextIterationReady => step == PassStep::StartIteration,
        IterationStepView::NextIterationDueAt(due) => step matches PassStep::End(outcome)
            && outcome matches JobPassOutcome::NextIterationDueAt(moment) && moment@ == due,
        IterationStepView::IterationBudgetSpent => step == PassStep::End(
            JobPassOutcome::IterationBudgetSpent,
        ),
        // Nothing to wait for and nothing terminal about the state, so the job falls back to the
        // ordinary backoff rather than to a moment nobody can compute.
        IterationStepView::NextIterationUnscheduled => step == PassStep::End(
            JobPassOutcome::Stalled,
        ),
    }
}

/// Decides at `now` how a pass over `job` begins.
pub fn begin_pass_at(job: &Job, now: Moment) -> (start: PassStart)
    ensures
        start.reports_finished == job@.is_processed(),
        answers_step(start.step, job@.iteration_step_at(now@)),
{
    let step = match job.pick_iteration_step_at(now) {
        IterationStep::IterationInProgress => PassStep::ExecuteTask,
        IterationStep::NextIterationReady => PassStep::StartIteration,
        IterationStep::NextIterationDueAt(due) => {
            PassStep::End(JobPassOutcome::NextIterationDueAt(due))
        },
        IterationStep::IterationBudgetSpent => PassStep::End(JobPassOutcome::IterationBudgetSpent),
        IterationStep::NextIterationUnscheduled => PassStep::End(JobPassOutcome::Stalled),
    };
    PassStart { reports_finished: job.is_processed(), step }
}

/// Decides now how a pass over `job` begins; see [`begin_pass_at`].
pub fn begin_pass(job: &Job) -> (start: PassStart)
    ensures
        start.reports_finished == job@.is_processed(),
        exists|now: int| #[trigger]
            is_dated(now) && answers_step(start.step, job@.iteration_step_at(now)),
{
    let now = Moment::now();
    begin_pass_at(job, now)
}

/// Decides what follows the start of an iteration.
///
/// The start can come back with the state another worker saved, which may already be an iteration
/// this worker has nothing left to do in.
pub fn after_iteration_start(started: &Result<Job, InternalError>) -> (step: PassStep)
    ensures
        step == (match *started {
            Ok(job) if !job@.is_processed() => PassStep::ExecuteTask,
            _ => PassStep::End(JobPassOutcome::Stalled),
        }),
{
    match started {
        Ok(job) => {
            if job.is_ready_for_processing() {
                PassStep::ExecuteTask
            } else {
                PassStep::End(JobPassOutcome::Stalled)
            }
        },
        Err(_) => PassStep::End(JobPassOutcome::Stalled),
    }
}

/// How a pass ended that tried to execute a task: one that found work moved the job.
pub fn conclude_pass(executed: &Result<bool, InternalError>) -> (outcome: JobPassOutcome)
    ensures
        outcome == (match *executed {
            Ok(true) => JobPassOutcome::Processed,
            _ => JobPassOutcome::Stalled,
        }),
{
    match executed {
        Ok(true) => JobPassOutcome::Processed,
        _ => JobPassOutcome::Stalled,
    }
}

/// What a worker found to do in an iteration.
#[derive(Debug)]
pub enum PickedWork {
    /// Nothing can be started right now.
    Nothing,
    /// The iteration ended as failed and is to be saved as such.
    IterationFailed,
    /// The iteration ended as completed and is to be saved as such.
    IterationCompleted,
    /// The task of this code went to another worker.
    Stolen(TaskCode),
    /// The task was started and is to be saved and executed.
    Started(Uuid, TaskCode),
}

/// Whether `picked` and `after` are what becomes of `worker` picking a task of `before` at
/// `picked_at`, walking the tasks in `order`, and starting it at `started_at`.
pub open spec fn picks_work(
    before: JobView,
    after: JobView,
    picked: Result<PickedWork, InternalError>,
    worker: Uuid,
    order: Seq<Uuid>,
    picked_at: int,
    started_at: int,
) -> bool {
    let (job, pickup) = before.picked(worker, order, picked_at);
    match pickup {
        Err(error) => after == job && (picked matches Err(e) && e@ == InternalErrorView::Job(error)),
        Ok(TaskPickup::Waiting) => after == job && picked == Ok::<PickedWork, InternalError>(
            PickedWork::Nothing,
        ),
        Ok(TaskPickup::Exhausted) => after == job && picked == Ok::<PickedWork, InternalError>(
            PickedWork::IterationFailed,
        ),
        Ok(TaskPickup::Settled) => after == job && picked == Ok::<PickedWork, InternalError>(
            PickedWork::IterationCompleted,
        ),
        Ok(TaskPickup::Ready(id)) => match job.start_refusal(id, worker, started_at) {
            None => after == job.task_started(id, worker, started_at) && (picked matches Ok(
                PickedWork::Started(task, code),
            ) && task == id && code@ == job.tasks[id].code),
            Some(JobErrorView::TaskWorkerMismatch) => after == job && (picked matches Ok(
                PickedWork::Stolen(code),
            ) && code@ == job.tasks[id].code),
            Some(error) => after == job && (picked matches Err(e) && e@ == InternalErrorView::Job(
                error,
            )),
        },
    }
}

/// Starts the task that [`Job::pick_in_order`] found ready.
fn start_picked(job: &mut Job, worker_id: Uuid, task_id: Uuid, now: Moment) -> (picked: Result<
    PickedWork,
    InternalError,
>)
    requires
        old(job)@.well_formed(),
        old(job)@.tasks.contains_key(task_id),
    ensures
        final(job)@.well_formed(),
        match old(job)@.start_refusal(task_id, worker_id, now@) {
            None => final(job)@ == old(job)@.task_started(task_id, worker_id, now@) && (
            picked matches Ok(PickedWork::Started(task, code)) && task == task_id && code@ == old(
                job,
            )@.tasks[task_id].code),
            Some(JobErrorView::TaskWorkerMismatch) => final(job)@ == old(job)@ && (
            picked matches Ok(PickedWork::Stolen(code)) && code@ == old(job)@.tasks[task_id].code),
            Some(error) => final(job)@ == old(job)@ && (picked matches Err(e) && e@
                == InternalErrorView::Job(error)),
        },
{
    let task_code = match job.find_task(&task_id) {
        Ok(task) => task.code().clone(),
        Err(e) => {
            return Err(InternalError::Job(e));
        },
    };
    match job.start_task_at(&task_id, worker_id, now) {
        Ok(()) => Ok(PickedWork::Started(task_id, task_code)),
        Err(JobError::TaskWorkerMismatch) => Ok(PickedWork::Stolen(task_code)),
        Err(e) => Err(InternalError::Job(e)),
    }
}

/// A task that is found ready is one of the job's.
proof fn lemma_ready_task_is_held(job: JobView, worker: Uuid, order: Seq<Uuid>, now: int)
    requires
        is_walk(order, job.tasks),
    ensures
        job.picked(worker, order, now).1 matches Ok(TaskPickup::Ready(id)) ==> job.picked(
            worker,
            order,
            now,
        ).0.tasks.contains_key(id),
{
    let open = if job.status == JobStatus::Running {
        job
    } else {
        job.working(worker, now)
    };
    crate::job::lemma_walk_end(open, order, now, 0);
    crate::job::lemma_walk_covers(order, open.tasks);
}

/// Picks a task for `worker_id` and starts it, walking the tasks in `order`.
pub fn pick_work_in_order(
    job: &mut Job,
    worker_id: Uuid,
    order: &Vec<Uuid>,
    picked_at: Moment,
    started_at: Moment,
) -> (picked: Result<PickedWork, InternalError>)
    requires
        old(job)@.well_formed(),
        is_walk(order@, old(job)@.tasks),
    ensures
        final(job)@.well_formed(),
        picks_work(
            old(job)@,
            final(job)@,
            picked,
            worker_id,
            order@,
            picked_at@,
            started_at@,
        ),
{
    proof {
        lemma_ready_task_is_held(job@, worker_id, order@, picked_at@);
    }
    match job.pick_in_order(&worker_id, order, picked_at) {
        Err(e) => Err(InternalError::Job(e)),
        Ok(TaskPickup::Waiting) => Ok(PickedWork::Nothing),
        Ok(TaskPickup::Exhausted) => Ok(PickedWork::IterationFailed),
        Ok(TaskPickup::Settled) => Ok(PickedWork::IterationCompleted),
        Ok(TaskPickup::Ready(task_id)) => start_picked(job, worker_id, task_id, started_at),
    }
}

/// Picks a task for `worker_id` and starts it; see [`pick_work_in_order`].
pub fn pick_work(job: &mut Job, worker_id: Uuid) -> (picked: Result<PickedWork, InternalError>)
    requires
        old(job)@.well_formed(),
    ensures
        final(job)@.well_formed(),
        exists|order: Seq<Uuid>, picked_at: int, started_at: int|
            is_walk(order, old(job)@.tasks) && is_dated(picked_at) && is_dated(started_at)
                && #[trigger] picks_work(
                old(job)@,
                final(job)@,
                picked,
                worker_id,
                order,
                picked_at,
                started_at,
            ),
{
    let order = job.walk();
    let picked_at = Moment::now();
    let started_at = Moment::now();
    pick_work_in_order(job, worker_id, &order, picked_at, started_at)
}

/// How saving a job ended.
#[derive(Clone, Copy, Debug, PartialEq, Eq, Structural)]
pub enum SaveOutcome {
    /// The job was saved.
    Saved,
    /// Another worker saved the job first, and its state stands.
    Skipped,
    /// Another worker took the task over.
    Stolen,
}

/// How a lost race to save the job is settled.
#[derive(Debug)]
pub enum MergeDecision {
    /// Save this job, into which the worker's changes were brought.
    Retry(Job),
    /// Nothing is left to save; this is the job as it stands.
    Done(Job, SaveOutcome),
}

/// What a worker insists on where another one saved the job first.
#[derive(Clone, Copy, Debug, PartialEq, Eq, Structural)]
pub enum ConflictPolicy {
    /// Nothing: someone else created the job, started the iteration or moved it on.
    KeepSaved,
    /// The start of a task.
    MergePicked {
        /// Worker that started the task.
        worker: Uuid,
        /// The task.
        task: Uuid,
    },
    /// The result of a task.
    MergeProcessed {
        /// Worker that processed the task.
        worker: Uuid,
        /// The task.
        task: Uuid,
    },
}

impl JobView {
    /// The job once an iteration whose tasks all settled was ended at `now`, or why it cannot be ended.
    /// The branches below skipped tasks of a running iteration are given up first.
    pub open spec fn completion_tried(self, worker: Uuid, now: int) -> Result<
        JobView,
        JobErrorView,
    > {
        if self.status == JobStatus::Running {
            let job = self.branches_given_up(now);
            if job.is_settled_at(now) {
                Ok(job.ended(JobStatus::Completed, worker, now))
            } else {
                Ok(job)
            }
        } else if !self.is_settled_at(now) {
            Ok(self)
        } else {
            Err(
                JobErrorView::InvalidStatusTransition {
                    from: self.status,
                    to: JobStatus::Completed,
                },
            )
        }
    }

    /// The job once the failure of an execution was recorded at `now`, or why it cannot be recorded.
    ///
    /// A task its executor resolved keeps the resolution.
    pub open spec fn failure_recorded(self, id: Uuid, reason: Seq<char>, now: int) -> Result<
        JobView,
        JobErrorView,
    > {
        if self.tasks.contains_key(id) && self.tasks[id].resolution() is Some {
            Ok(self)
        } else {
            match self.failure_refusal(id) {
                Some(error) => Err(error),
                None => Ok(self.task_failed(id, reason, TaskRetry::WhileBudgetLasts, now)),
            }
        }
    }

    /// What comes of bringing the changes `policy` insists on from `current` into this saved job: the
    /// job to save next, the job that stands with the outcome, or an error that ends the attempts.
    pub open spec fn settled(self, policy: ConflictPolicy, current: JobView, now: int) -> Result<
        (JobView, Option<SaveOutcome>),
        JobErrorView,
    > {
        match policy {
            ConflictPolicy::KeepSaved => Ok((self, Some(SaveOutcome::Skipped))),
            ConflictPolicy::MergePicked { worker, task } => match self.picked_merge_refusal(
                current,
                worker,
                task,
            ) {
                None => Ok((self.merged_with_picked(current, worker, task), None)),
                Some(JobErrorView::TaskWorkerMismatch) => Ok((self, Some(SaveOutcome::Stolen))),
                Some(error) => Err(error),
            },
            ConflictPolicy::MergeProcessed { worker, task } => match self.processed_merge_refusal(
                current,
                worker,
                task,
            ) {
                None => match self.merged_with_processed(current, worker).completion_tried(
                    worker,
                    now,
                ) {
                    Ok(job) => Ok((job, None)),
                    Err(error) => Err(error),
                },
                Some(JobErrorView::TaskWorkerMismatch) => Ok((self, Some(SaveOutcome::Stolen))),
                Some(error) => Err(error),
            },
        }
    }
}

/// Whether `decision` is what settles the race between `current` and `saved` at `now`.
pub open spec fn settles(
    decision: Result<MergeDecision, InternalError>,
    policy: ConflictPolicy,
    current: JobView,
    saved: JobView,
    now: int,
) -> bool {
    match saved.settled(policy, current, now) {
        Ok((job, None)) => decision matches Ok(MergeDecision::Retry(merged)) && merged@ == job
            && merged@.well_formed(),
        Ok((job, Some(outcome))) => decision matches Ok(MergeDecision::Done(standing, how))
            && standing@ == job && how == outcome && standing@.well_formed(),
        Err(error) => decision matches Err(e) && e@ == InternalErrorView::Job(error),
    }
}

/// Settles at `now` a race to save that `current` lost to `saved`.
///
/// Bringing in a result may complete the iteration, another worker having completed the other tasks.
pub fn settle_conflict_at(policy: ConflictPolicy, current: &Job, saved: Job, now: Moment) -> (
decision: Result<MergeDecision, InternalError>)
    requires
        current@.well_formed(),
        saved@.well_formed(),
    ensures
        settles(decision, policy, current@, saved@, now@),
{
    let mut job = saved;
    match policy {
        ConflictPolicy::KeepSaved => Ok(MergeDecision::Done(job, SaveOutcome::Skipped)),
        ConflictPolicy::MergePicked { worker, task } => {
            match job.merge_with_picked_task(current, &worker, &task) {
                Ok(()) => Ok(MergeDecision::Retry(job)),
                Err(JobError::TaskWorkerMismatch) => {
                    Ok(MergeDecision::Done(job, SaveOutcome::Stolen))
                },
                Err(e) => Err(InternalError::Job(e)),
            }
        },
        ConflictPolicy::MergeProcessed { worker, task } => {
            match job.merge_with_processed_task(current, &worker, &task) {
                Ok(()) => match job.try_to_complete_at(&worker, now) {
                    Ok(_) => Ok(MergeDecision::Retry(job)),
                    Err(e) => Err(InternalError::Job(e)),
                },
                Err(JobError::TaskWorkerMismatch) => {
                    Ok(MergeDecision::Done(job, SaveOutcome::Stolen))
                },
                Err(e) => Err(InternalError::Job(e)),
            }
        },
    }
}

/// Settles now a race to save that `current` lost to `saved`; see [`settle_conflict_at`].
pub fn settle_conflict(policy: ConflictPolicy, current: &Job, saved: Job) -> (decision: Result<
    MergeDecision,
    InternalError,
>)
    requires
        current@.well_formed(),
        saved@.well_formed(),
    ensures
        exists|now: int|
            is_dated(now) && #[trigger] settles(decision, policy, current@, saved@, now),
{
    let now = Moment::now();
    settle_conflict_at(policy, current, saved, now)
}

/// What a worker does after an attempt to save.
#[derive(Debug)]
pub enum SaveStep {
    /// The job was saved.
    Saved,
    /// Another writer came first: load its state and settle the race. The conflict travels along so
    /// that spending every attempt can report it.
    Refresh(InternalError),
    /// The attempts are over.
    Failed(InternalError),
}

/// Decides what follows an attempt to save.
pub fn after_save(saved: Result<(), StorageError>) -> (step: SaveStep)
    ensures
        match saved {
            Ok(_) => step == SaveStep::Saved,
            Err(error) => if error@.kind == StorageErrorKind::ConcurrentModification {
                step matches SaveStep::Refresh(e) && e@ == InternalErrorView::Storage(error@)
            } else if error@.kind == StorageErrorKind::Cancelled {
                step matches SaveStep::Failed(e) && e@ == InternalErrorView::Cancelled
            } else {
                step matches SaveStep::Failed(e) && e@ == InternalErrorView::Storage(error@)
            },
        },
{
    match saved {
        Ok(()) => SaveStep::Saved,
        Err(error) => {
            if error.is_conflict() {
                SaveStep::Refresh(InternalError::from(error))
            } else {
                SaveStep::Failed(InternalError::from(error))
            }
        },
    }
}

/// What a settled race means for the attempts to save: the job to go on with, and whether another
/// attempt is to be made for it.
pub fn after_settling(decision: Result<MergeDecision, InternalError>, conflict: InternalError) -> (
step: Result<(Job, RetryStep<SaveOutcome, InternalError>), InternalError>)
    ensures
        match decision {
            Ok(MergeDecision::Retry(job)) => step == Ok::<
                (Job, RetryStep<SaveOutcome, InternalError>),
                InternalError,
            >((job, RetryStep::Retry(conflict))),
            Ok(MergeDecision::Done(job, outcome)) => step == Ok::<
                (Job, RetryStep<SaveOutcome, InternalError>),
                InternalError,
            >((job, RetryStep::Done(outcome))),
            Err(error) => step == Err::<
                (Job, RetryStep<SaveOutcome, InternalError>),
                InternalError,
            >(error),
        },
{
    match decision {
        Ok(MergeDecision::Retry(job)) => Ok((job, RetryStep::Retry(conflict))),
        Ok(MergeDecision::Done(job, outcome)) => Ok((job, RetryStep::Done(outcome))),
        Err(error) => Err(error),
    }
}

/// What an execution needs: the executor, the task as it was picked up, and the moment the execution
/// is cancelled at.
#[derive(Debug)]
pub struct Execution {
    /// The executor to run.
    pub executor: ExecutorId,
    /// Snapshot of the task.
    pub task: Task,
    /// Deadline of the ownership, which already accounts for the task's maximum lifetime.
    pub deadline_at: Option<Moment>,
}

/// Prepares the execution of a task that was started and saved.
///
/// # Errors
///
/// Returns [`InternalError::Job`] if the job does not hold the task, or [`InternalError::Other`] if no
/// executor is registered for its code.
pub fn prepare_execution(job: &Job, registry: &JobRegistry, task_id: &Uuid) -> (prepared: Result<
    Execution,
    InternalError,
>)
    requires
        registry.well_formed(),
    ensures
        if !job@.tasks.contains_key(*task_id) {
            prepared matches Err(e) && e@ == InternalErrorView::Job(JobErrorView::TaskNotFound)
        } else {
            let task = job@.tasks[*task_id];
            match registered_executor(registry@, job@.code, task.code) {
                Some(executor) => prepared matches Ok(execution) && execution.executor == executor
                    && execution.task@ == task && at(execution.deadline_at) == task.deadline_at,
                None => prepared matches Err(e) && e@ == InternalErrorView::Other(
                    "executor for task "@ + task.code + " and job "@ + job@.code + " not exist"@,
                ),
            }
        },
{
    let task = match job.get_task(task_id) {
        Ok(task) => task,
        Err(e) => {
            return Err(InternalError::Job(e));
        },
    };
    let executor = match registry.get_task_executor(job.code(), task.code()) {
        Ok(executor) => executor,
        Err(e) => {
            return Err(InternalError::from(e));
        },
    };
    let deadline_at = task.deadline_at();
    Ok(Execution { executor, task, deadline_at })
}

/// How an execution ended.
#[derive(Debug)]
pub enum ExecutionEnd {
    /// The executor returned an outcome.
    Returned(TaskOutcome),
    /// The executor returned an error, which says this.
    Refused(String),
    /// The executor panicked with this message.
    Panicked(String),
}

/// The message of a panic, where its payload carries one.
pub fn panic_payload_to_string(message: Option<String>) -> (text: String)
    ensures
        text@ == match message {
            Some(message) => message@,
            None => "unknown panic"@,
        },
{
    match message {
        Some(message) => message,
        None => "unknown panic".to_owned(),
    }
}

/// What an executor is told that deferred without resolving its task.
pub open spec fn unresolved_text(id: Uuid) -> Seq<char> {
    "executor returned Deferred without resolving task '"@ + uuid_text(id)
        + "': complete or fail it through the job handle, or return the outcome instead"@
}

/// What an executor is told that reports a cancellation nobody asked for.
pub open spec fn uncalled_cancellation_text() -> Seq<char> {
    "executor returned Cancelled without a cancellation of its execution: return the outcome of the work, or select on the token and return Cancelled once it fires"@
}

/// Checks that the task an executor deferred is no longer open. Completing and failing are the only
/// ways to resolve one, so anything else was left for nobody to close.
pub fn check_task_resolution(job: &Job, task_id: &Uuid) -> (resolved: Result<(), InternalError>)
    ensures
        if !job@.tasks.contains_key(*task_id) {
            resolved matches Err(e) && e@ == InternalErrorView::Job(JobErrorView::TaskNotFound)
        } else if job@.tasks[*task_id].resolution() is Some {
            resolved is Ok
        } else {
            resolved matches Err(e) && e@ == InternalErrorView::Other(unresolved_text(*task_id))
        },
{
    match job.find_task(task_id) {
        Err(e) => Err(InternalError::Job(e)),
        Ok(task) => {
            if task.is_resolved() {
                return Ok(());
            }
            let mut message = "executor returned Deferred without resolving task '".to_owned();
            let name = id_text(*task_id);
            message.append(name.as_str());
            message.append(
                "': complete or fail it through the job handle, or return the outcome instead",
            );
            Err(InternalError::Other(message))
        },
    }
}

/// What the save of an execution's result is labelled with.
#[derive(Clone, Copy, Debug, PartialEq, Eq, Structural)]
pub enum SaveReason {
    /// The execution failed.
    FailedTask,
    /// The execution ended well.
    CompletedTask,
}

impl SaveReason {
    /// The label.
    pub fn as_str(self) -> (label: &'static str)
        ensures
            label@ == match self {
                SaveReason::FailedTask => "save_failed_task"@,
                SaveReason::CompletedTask => "save_completed_task"@,
            },
    {
        match self {
            SaveReason::FailedTask => "save_failed_task",
            SaveReason::CompletedTask => "save_completed_task",
        }
    }
}

/// What follows an execution.
#[derive(Clone, Copy, Debug, PartialEq, Eq, Structural)]
pub enum ExecutionVerdict {
    /// The deadline released the executor: the task stays as it is for another worker to take over.
    ReleasedByDeadline,
    /// The job carries the result and is to be saved.
    Save(SaveReason),
}

/// The words an execution that ended like this fails its task with, or `None` where it ended well.
pub open spec fn failure_text(job: JobView, id: Uuid, end: ExecutionEnd, now: int) -> Option<
    Seq<char>,
> {
    match end {
        ExecutionEnd::Returned(TaskOutcome::Completed(output)) => match job.completion_refusal(
            id,
            output@,
            now,
        ) {
            Some(error) => Some(error.text()),
            None => None,
        },
        ExecutionEnd::Returned(TaskOutcome::Deferred) => if !job.tasks.contains_key(id) {
            Some(JobErrorView::TaskNotFound.text())
        } else if job.tasks[id].resolution() is Some {
            None
        } else {
            Some(unresolved_text(id))
        },
        ExecutionEnd::Returned(TaskOutcome::Cancelled) => Some(uncalled_cancellation_text()),
        ExecutionEnd::Refused(message) => Some(message@),
        ExecutionEnd::Panicked(message) => Some("executor panicked: "@ + message@),
    }
}

/// The job an execution that ended well leaves: the worker closes the task itself, unless the
/// executor resolved it through its handle.
pub open spec fn closed_by_worker(job: JobView, id: Uuid, end: ExecutionEnd, now: int) -> JobView {
    match end {
        ExecutionEnd::Returned(TaskOutcome::Completed(output)) => job.with_task(
            id,
            job.tasks[id].completed(output@, now),
        ),
        _ => job,
    }
}

/// What becomes of an execution of `worker` that ended at `now`, neither a shutdown nor its deadline
/// having released it: the job it leaves, and what follows.
pub open spec fn executed(job: JobView, id: Uuid, worker: Uuid, end: ExecutionEnd, now: int) -> (
    JobView,
    Result<ExecutionVerdict, JobErrorView>,
) {
    let (recorded, reason) = match failure_text(job, id, end, now) {
        None => (Ok(closed_by_worker(job, id, end, now)), SaveReason::CompletedTask),
        Some(message) => (job.failure_recorded(id, message, now), SaveReason::FailedTask),
    };
    match recorded {
        Err(error) => (job, Err(error)),
        Ok(after) => match after.completion_tried(worker, now) {
            Ok(done) => (done, Ok(ExecutionVerdict::Save(reason))),
            Err(error) => (after, Err(error)),
        },
    }
}

/// Applies how an execution ended to the task: `Ok` where it ended well, the error it fails the task
/// with otherwise.
fn apply_end(job: &mut Job, task_id: &Uuid, end: ExecutionEnd, now: Moment) -> (applied: Result<
    (),
    InternalError,
>)
    requires
        old(job)@.well_formed(),
    ensures
        final(job)@.well_formed(),
        match failure_text(old(job)@, *task_id, end, now@) {
            None => applied is Ok && final(job)@ == closed_by_worker(
                old(job)@,
                *task_id,
                end,
                now@,
            ),
            Some(message) => final(job)@ == old(job)@ && (applied matches Err(e) && e@.text()
                == message),
        },
{
    match end {
        ExecutionEnd::Returned(TaskOutcome::Completed(output)) => {
            match job.complete_task_at(task_id, output, now) {
                Ok(()) => Ok(()),
                Err(e) => Err(InternalError::Job(e)),
            }
        },
        ExecutionEnd::Returned(TaskOutcome::Deferred) => check_task_resolution(job, task_id),
        ExecutionEnd::Returned(TaskOutcome::Cancelled) => Err(
            InternalError::Other(
                "executor returned Cancelled without a cancellation of its execution: return the outcome of the work, or select on the token and return Cancelled once it fires".to_owned(),
            ),
        ),
        ExecutionEnd::Refused(message) => Err(InternalError::Other(message)),
        ExecutionEnd::Panicked(message) => {
            let mut text = "executor panicked: ".to_owned();
            text.append(message.as_str());
            Err(InternalError::Other(text))
        },
    }
}

/// Whether `verdict` and `after` are what becomes of an execution that ended at `now`.
///
/// A shutdown requested while the executor was running leaves the task untouched, and the outcome the
/// executor did return is dropped. An executor that reports a cancellation was released by its
/// deadline where that has passed; otherwise the report is a broken contract and fails the task.
pub open spec fn concludes(
    before: JobView,
    after: JobView,
    verdict: Result<ExecutionVerdict, InternalError>,
    id: Uuid,
    worker: Uuid,
    end: ExecutionEnd,
    shutdown: bool,
    deadline_passed: bool,
    now: int,
) -> bool {
    if shutdown {
        after == before && (verdict matches Err(e) && e@ == InternalErrorView::Cancelled)
    } else if end == ExecutionEnd::Returned(TaskOutcome::Cancelled) && deadline_passed {
        after == before && verdict == Ok::<ExecutionVerdict, InternalError>(
            ExecutionVerdict::ReleasedByDeadline,
        )
    } else {
        let (job, result) = executed(before, id, worker, end, now);
        after == job && match result {
            Ok(expected) => verdict == Ok::<ExecutionVerdict, InternalError>(expected),
            Err(error) => verdict matches Err(e) && e@ == InternalErrorView::Job(error),
        }
    }
}

/// Brings how an execution of `worker_id` ended at `now` into the worker's copy of the job, and
/// completes the iteration where every task settled.
///
/// # Errors
///
/// Returns [`InternalError::Cancelled`] after a shutdown, or [`InternalError::Job`] if the failure of
/// the execution cannot be recorded or the iteration cannot be completed.
pub fn conclude_execution_at(
    job: &mut Job,
    task_id: &Uuid,
    worker_id: &Uuid,
    end: ExecutionEnd,
    shutdown: bool,
    deadline_passed: bool,
    now: Moment,
) -> (verdict: Result<ExecutionVerdict, InternalError>)
    requires
        old(job)@.well_formed(),
    ensures
        final(job)@.well_formed(),
        concludes(
            old(job)@,
            final(job)@,
            verdict,
            *task_id,
            *worker_id,
            end,
            shutdown,
            deadline_passed,
            now@,
        ),
{
    if shutdown {
        return Err(InternalError::Cancelled);
    }
    if deadline_passed && matches!(end, ExecutionEnd::Returned(TaskOutcome::Cancelled)) {
        return Ok(ExecutionVerdict::ReleasedByDeadline);
    }
    let reason = match apply_end(job, task_id, end, now) {
        Ok(()) => SaveReason::CompletedTask,
        Err(e) => {
            let message = e.message();
            match job.record_task_execution_failure_at(task_id, message.as_str(), now) {
                Ok(_) => SaveReason::FailedTask,
                Err(e) => {
                    return Err(InternalError::Job(e));
                },
            }
        },
    };
    match job.try_to_complete_at(worker_id, now) {
        Ok(_) => Ok(ExecutionVerdict::Save(reason)),
        Err(e) => Err(InternalError::Job(e)),
    }
}

/// Brings how an execution of `worker_id` ended now into the worker's copy of the job; see
/// [`conclude_execution_at`].
pub fn conclude_execution(
    job: &mut Job,
    task_id: &Uuid,
    worker_id: &Uuid,
    end: ExecutionEnd,
    shutdown: bool,
    deadline_passed: bool,
) -> (verdict: Result<ExecutionVerdict, InternalError>)
    requires
        old(job)@.well_formed(),
    ensures
        final(job)@.well_formed(),
        exists|now: int|
            is_dated(now) && #[trigger] concludes(
                old(job)@,
                final(job)@,
                verdict,
                *task_id,
                *worker_id,
                end,
                shutdown,
                deadline_passed,
                now,
            ),
{
    let now = Moment::now();
    conclude_execution_at(job, task_id, worker_id, end, shutdown, deadline_passed, now)
}

/// Time from the first of two moments to the second, none where either is unset or they are the other
/// way round.
pub open spec fn measured(started: Option<int>, completed: Option<int>) -> int {
    match (started, completed) {
        (Some(started), Some(completed)) => if completed >= started {
            completed - started
        } else {
            0
        },
        _ => 0,
    }
}

/// How long the last execution of the task took, as it is measured.
pub fn task_duration(task: &Task) -> (duration: Duration)
    ensures
        duration@ == measured(task@.started_at, task@.completed_at),
{
    match (task.started_at(), task.completed_at()) {
        (Some(started), Some(completed)) => completed.saturating_duration_since(&started),
        _ => Duration::zero(),
    }
}

/// How long the iteration took, as it is measured.
pub fn iteration_duration(job: &Job) -> (duration: Duration)
    ensures
        duration@ == measured(Some(job@.started_at), job@.completed_at),
{
    match job.completed_at() {
        Some(completed) => completed.saturating_duration_since(&job.started_at()),
        None => Duration::zero(),
    }
}

/// Time left at `now` until the executor is to be cancelled, none where the deadline has passed.
pub fn time_until_deadline(deadline_at: Moment, now: Moment) -> (left: Duration)
    ensures
        left@ == measured(Some(now@), Some(deadline_at@)),
{
    deadline_at.saturating_duration_since(&now)
}

} // verus!
