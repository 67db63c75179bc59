//! Jobs: the tasks of their current iteration, and the rules by which it moves on.

use std::collections::HashMap;

use vstd::prelude::*;

use crate::code::{JobCode, TaskCode};
use crate::definition::{task_views, JobDefinition, TaskLimits};
use crate::error::{JobError, JobErrorView};
use crate::job_view::{
    adds_task, completes_job, completes_task, created_ids, creates, fails_task, given_up_text,
    is_walk, merges_picked, merges_processed, moves_on, outlived_lifetime_text, picks,
    planned_tasks, records_failure, resolved_references, starts_task, task_entries, task_summary,
    tasks_by_id, tasks_of, IterationStepView, JobView, TaskPickup, TaskSettlement,
};
use crate::status::{JobStatus, SkipCause, TaskRetry, TaskStatus};
use crate::task::{
    DependencyVerdict, Task, TaskAvailability, TaskDefinition, TaskDefinitionView, TaskRef,
    TaskRefKind, TaskView, Uuid,
};
use crate::text::{all_random, decimal, id_text, is_random_id, new_id, signed_text, unsigned_text};
use crate::time::{at, is_dated, length, Duration, Moment, TimeDelta};

verus! {

broadcast use vstd::std_specs::hash::group_hash_axioms;

/// What a job's state allows to be done about its next iteration.
#[derive(Debug, Clone, Copy, PartialEq, Eq)]
pub enum IterationStep {
    /// The current iteration is open: its tasks can be taken into work.
    IterationInProgress,
    /// The current iteration ended and the next one is allowed now.
    NextIterationReady,
    /// The current iteration ended; the next one is allowed no earlier than the given moment.
    NextIterationDueAt(Moment),
    /// The current iteration ended and the job spent its iteration budget.
    IterationBudgetSpent,
    /// The current iteration ended, but no moment for the next one can be derived.
    NextIterationUnscheduled,
}

impl View for IterationStep {
    type V = IterationStepView;

    open spec fn view(&self) -> IterationStepView {
        match *self {
            IterationStep::IterationInProgress => IterationStepView::IterationInProgress,
            IterationStep::NextIterationReady => IterationStepView::NextIterationReady,
            IterationStep::NextIterationDueAt(due) => IterationStepView::NextIterationDueAt(due@),
            IterationStep::IterationBudgetSpent => IterationStepView::IterationBudgetSpent,
            IterationStep::NextIterationUnscheduled => IterationStepView::NextIterationUnscheduled,
        }
    }
}

/// A job: the state of its current iteration, and the settings it repeats by.
#[derive(Debug)]
pub struct Job {
    id: Uuid,
    code: JobCode,
    iter_num: u64,
    status: JobStatus,
    tasks_by_id: HashMap<Uuid, Task>,
    updated_by_worker_id: Uuid,
    started_at: Moment,
    running_at: Option<Moment>,
    completed_at: Option<Moment>,
    next_start_at: Option<Moment>,
    metadata: HashMap<String, serde_json::Value>,
    version: String,
    max_iterations: Option<u64>,
    iteration_interval: Option<Duration>,
    task_limits: TaskLimits,
}

impl View for Job {
    type V = JobView;

    closed spec fn view(&self) -> JobView {
        JobView {
            id: self.id,
            code: self.code@,
            iter_num: self.iter_num,
            status: self.status,
            tasks: tasks_of(self.tasks_by_id@),
            updated_by_worker_id: self.updated_by_worker_id,
            started_at: self.started_at@,
            running_at: at(self.running_at),
            completed_at: at(self.completed_at),
            next_start_at: at(self.next_start_at),
            metadata: self.metadata@,
            version: self.version@,
            max_iterations: self.max_iterations,
            iteration_interval: length(self.iteration_interval),
            task_limits: self.task_limits,
        }
    }
}

/// The identifiers of the tasks, in the order the map happens to walk them.
fn ids_of(tasks: &HashMap<Uuid, Task>) -> (ids: Vec<Uuid>)
    ensures
        ids@.no_duplicates(),
        ids@.to_set() == tasks@.dom(),
{
    let ghost all = vstd::std_specs::iter::IteratorSpec::remaining(
        &vstd::std_specs::hash::spec_keys_iter(tasks),
    ).unref();
    let mut ids: Vec<Uuid> = Vec::new();
    for id in it: tasks.keys()
        invariant
            it.seq().unref() == all,
            all.to_set() == tasks@.dom(),
            ids@ == all.take(it.index() as int),
    {
        ids.push(*id);
    }
    assert(all.take(all.len() as int) =~= all);
    ids
}

/// The message for a task that outlived its maximum lifetime, naming the limit and the moment it was
/// reached - neither of which an operator can recover from the task's status.
fn describe_outlived_lifetime(task: &Task) -> (message: String)
    ensures
        message@ == outlived_lifetime_text(task@),
{
    let mut message = "task outlived its maximum lifetime of ".to_owned();
    let limit = signed_text(task.max_lifetime().num_milliseconds());
    let deadline = match task.lifetime_deadline_at() {
        Some(deadline) => deadline.to_text(),
        None => "unset".to_owned(),
    };
    message.append(limit.as_str());
    message.append(" ms (lifetime deadline ");
    message.append(deadline.as_str());
    message.append(")");
    message
}

/// A prefix of references that is refused refuses them all, and in the same words.
proof fn lemma_unresolved(references: Seq<TaskRef>, ids: Seq<Uuid>, n: int)
    requires
        0 <= n <= references.len(),
    ensures
        resolved_references(references.take(n), ids) matches Err(message) ==> resolved_references(
            references,
            ids,
        ) == Err::<Seq<Uuid>, Seq<char>>(message),
    decreases references.len() - n,
{
    if n < references.len() {
        assert(references.take(n + 1).drop_last() =~= references.take(n));
        lemma_unresolved(references, ids, n + 1);
    } else {
        assert(references.take(n) =~= references);
    }
}

/// A prefix of references that is refused refuses them all, and in the same words.
proof fn lemma_refused_references(job: JobView, references: Seq<TaskRef>, n: int)
    requires
        0 <= n <= references.len(),
    ensures
        job.reference_refusal(references.take(n)) matches Some(message) ==> job.reference_refusal(
            references,
        ) == Some(message),
    decreases references.len() - n,
{
    if n < references.len() {
        assert(references.take(n + 1).drop_last() =~= references.take(n));
        lemma_refused_references(job, references, n + 1);
    } else {
        assert(references.take(n) =~= references);
    }
}

/// A plan that is refused at one definition is refused as a whole, and in the same words.
proof fn lemma_refused_plan(
    definitions: Seq<TaskDefinitionView>,
    ids: Seq<Uuid>,
    worker: Uuid,
    some: int,
    all: int,
)
    requires
        some <= all,
    ensures
        planned_tasks(definitions, ids, worker, some) matches Err(message) ==> planned_tasks(
            definitions,
            ids,
            worker,
            all,
        ) == Err::<Map<Uuid, TaskView>, Seq<char>>(message),
    decreases all - some,
{
    if some < all {
        lemma_refused_plan(definitions, ids, worker, some, all - 1);
    }
}

/// Planned tasks are filed under their own identifiers and have spent no attempt.
proof fn lemma_planned_tasks_fit(
    definitions: Seq<TaskDefinitionView>,
    ids: Seq<Uuid>,
    worker: Uuid,
    count: int,
)
    ensures
        planned_tasks(definitions, ids, worker, count) matches Ok(tasks) ==> tasks.dom().finite()
            && forall|id: Uuid| #[trigger]
            tasks.contains_key(id) ==> tasks[id].id == id && tasks[id].attempt == 0,
    decreases count,
{
    if count > 0 {
        lemma_planned_tasks_fit(definitions, ids, worker, count - 1);
    }
}

/// The identifiers `references` name, where `ids` holds the identifier of every initial task.
fn resolve_references(references: &Vec<TaskRef>, ids: &Vec<Uuid>) -> (resolved: Result<
    Vec<Uuid>,
    JobError,
>)
    ensures
        match resolved_references(references@, ids@) {
            Ok(depends_on) => resolved matches Ok(list) && list@ == depends_on,
            Err(message) => resolved matches Err(e) && e@ == JobErrorView::Other(message),
        },
{
    let mut resolved: Vec<Uuid> = Vec::new();
    let mut k: usize = 0;
    assert(references@.take(0) =~= Seq::empty());
    while k < references.len()
        invariant
            k <= references@.len(),
            resolved_references(references@.take(k as int), ids@) == Ok::<Seq<Uuid>, Seq<char>>(
                resolved@,
            ),
        decreases references@.len() - k,
    {
        proof {
            assert(references@.take(k + 1).drop_last() =~= references@.take(k as int));
            assert(references@.take(k + 1).last() == references@[k as int]);
            lemma_unresolved(references@, ids@, k + 1);
        }
        match references[k].kind() {
            TaskRefKind::Initial { job_definition: _, position } => {
                if position < ids.len() {
                    resolved.push(ids[position]);
                } else {
                    let mut message = "dependency reference ".to_owned();
                    let place = unsigned_text(position as u128);
                    message.append(place.as_str());
                    message.append(" is out of range");
                    return Err(JobError::Other(message));
                }
            },
            TaskRefKind::Created(id) => {
                let mut message = "initial task cannot depend on task '".to_owned();
                let name = id_text(id);
                message.append(name.as_str());
                message.append("' created at runtime");
                return Err(JobError::Other(message));
            },
        }
        k = k + 1;
    }
    assert(references@.take(k as int) =~= references@);
    Ok(resolved)
}

/// The tasks an iteration starts with, under the identifiers `ids` holds for them.
fn plan_tasks(definitions: &Vec<TaskDefinition>, ids: &Vec<Uuid>, worker_id: Uuid) -> (planned:
    Result<HashMap<Uuid, Task>, JobError>)
    requires
        ids@.len() == definitions@.len(),
    ensures
        match planned_tasks(
            task_views(definitions@),
            ids@,
            worker_id,
            definitions@.len() as int,
        ) {
            Ok(tasks) => planned matches Ok(map) && tasks_of(map@) == tasks,
            Err(message) => planned matches Err(e) && e@ == JobErrorView::Other(message),
        },
{
    let ghost views = task_views(definitions@);
    let mut tasks: HashMap<Uuid, Task> = HashMap::new();
    let mut position: usize = 0;
    assert(tasks_of(tasks@) =~= Map::empty());
    while position < definitions.len()
        invariant
            position <= definitions@.len(),
            ids@.len() == definitions@.len(),
            views == task_views(definitions@),
            planned_tasks(views, ids@, worker_id, position as int) == Ok::<
                Map<Uuid, TaskView>,
                Seq<char>,
            >(tasks_of(tasks@)),
        decreases definitions@.len() - position,
    {
        proof {
            lemma_refused_plan(
                views,
                ids@,
                worker_id,
                position + 1,
                definitions@.len() as int,
            );
        }
        let definition = &definitions[position];
        let resolved = match resolve_references(definition.depends_on(), ids) {
            Ok(resolved) => resolved,
            Err(e) => {
                return Err(e);
            },
        };
        let id: Uuid = ids[position];
        let task = Task::new(id, worker_id, None, definition, resolved);
        let ghost before = tasks@;
        tasks.insert(id, task);
        assert(tasks_of(tasks@) =~= tasks_of(before).insert(id, task@));
        position = position + 1;
    }
    Ok(tasks)
}

/// Mints one identifier for each of `count` tasks.
fn mint_ids(count: usize) -> (ids: Vec<Uuid>)
    ensures
        ids@.len() == count,
        all_random(ids@),
{
    let mut ids: Vec<Uuid> = Vec::new();
    while ids.len() < count
        invariant
            ids@.len() <= count,
            all_random(ids@),
        decreases count - ids@.len(),
    {
        ids.push(new_id());
    }
    ids
}

impl Job {
    /// Creates the first iteration of a job from its description, at `now`, under the identifiers
    /// given.
    ///
    /// A description is validated where it is built, so the definitions reaching here are not
    /// validated again. The reference checks are the domain constructor's own guard against a
    /// description assembled past that validation.
    pub fn new_at(
        job_def: &JobDefinition,
        metadata: HashMap<String, serde_json::Value>,
        worker_id: Uuid,
        id: Uuid,
        task_ids: &Vec<Uuid>,
        now: Moment,
    ) -> (created: Result<Self, JobError>)
        requires
            task_ids@.len() == job_def@.initial_tasks.len(),
        ensures
            creates(created, job_def@, metadata@, worker_id, id, task_ids@, now@),
    {
        let tasks_by_id = match plan_tasks(job_def.initial_tasks(), task_ids, worker_id) {
            Ok(tasks) => tasks,
            Err(e) => {
                return Err(e);
            },
        };
        proof {
            lemma_planned_tasks_fit(
                job_def@.initial_tasks,
                task_ids@,
                worker_id,
                job_def@.initial_tasks.len() as int,
            );
        }
        Ok(
            Job {
                id,
                code: job_def.code().clone(),
                iter_num: 1,
                status: JobStatus::Started,
                tasks_by_id,
                updated_by_worker_id: worker_id,
                started_at: now,
                running_at: None,
                completed_at: None,
                next_start_at: None,
                metadata,
                version: String::new(),
                max_iterations: job_def.max_iterations(),
                iteration_interval: job_def.iteration_interval(),
                task_limits: job_def.task_limits(),
            },
        )
    }

    /// Creates the first iteration of a job from its description; see [`Self::new_at`].
    ///
    /// Every task gets its identifier first: a positional reference cannot be resolved before the
    /// task it points at has one.
    pub fn new(
        job_def: &JobDefinition,
        metadata: HashMap<String, serde_json::Value>,
        worker_id: Uuid,
    ) -> (created: Result<Self, JobError>)
        ensures
            exists|id: Uuid, ids: Seq<Uuid>, now: int|
                is_random_id(id) && all_random(ids) && ids.len() == job_def@.initial_tasks.len()
                    && is_dated(now) && #[trigger] creates(
                    created,
                    job_def@,
                    metadata@,
                    worker_id,
                    id,
                    ids,
                    now,
                ),
    {
        let task_ids = mint_ids(job_def.initial_tasks().len());
        let id = new_id();
        let now = Moment::now();
        Self::new_at(job_def, metadata, worker_id, id, &task_ids, now)
    }
}

impl Clone for Job {
    fn clone(&self) -> (copy: Self)
        ensures
            copy@ == self@,
    {
        Job {
            id: self.id,
            code: self.code.clone(),
            iter_num: self.iter_num,
            status: self.status,
            tasks_by_id: self.tasks_by_id.clone(),
            updated_by_worker_id: self.updated_by_worker_id,
            started_at: self.started_at,
            running_at: self.running_at,
            completed_at: self.completed_at,
            next_start_at: self.next_start_at,
            metadata: self.metadata.clone(),
            version: self.version.clone(),
            max_iterations: self.max_iterations,
            iteration_interval: self.iteration_interval,
            task_limits: self.task_limits,
        }
    }
}

/// What a job that already has a history is rebuilt from.
#[derive(Debug)]
pub struct RestoredJob {
    /// Identifier of the job.
    pub id: Uuid,
    /// Code of the job's description.
    pub code: JobCode,
    /// Version of the stored state.
    pub version: String,
    /// Number of the current iteration.
    pub iter_num: u64,
    /// State of the current iteration.
    pub status: JobStatus,
    /// Tasks of the current iteration.
    pub tasks: Vec<Task>,
    /// Worker that changed the job last.
    pub updated_by_worker_id: Uuid,
    /// Start of the current iteration.
    pub started_at: Moment,
    /// Moment the iteration was taken into work last.
    pub running_at: Option<Moment>,
    /// Moment the iteration ended.
    pub completed_at: Option<Moment>,
    /// Earliest moment of the next iteration, where one was set.
    pub next_start_at: Option<Moment>,
    /// Values the job carries along.
    pub metadata: HashMap<String, serde_json::Value>,
    /// Iteration cap, or `None` for an endlessly repeating job.
    pub max_iterations: Option<u64>,
    /// Minimum delay between the starts of consecutive iterations.
    pub iteration_interval: Option<Duration>,
    /// Payload size caps.
    pub task_limits: TaskLimits,
}

impl RestoredJob {
    /// The job these fields describe.
    pub open spec fn job(self) -> JobView {
        JobView {
            id: self.id,
            code: self.code@,
            iter_num: self.iter_num,
            status: self.status,
            tasks: tasks_by_id(self.tasks@),
            updated_by_worker_id: self.updated_by_worker_id,
            started_at: self.started_at@,
            running_at: at(self.running_at),
            completed_at: at(self.completed_at),
            next_start_at: at(self.next_start_at),
            metadata: self.metadata@,
            version: self.version@,
            max_iterations: self.max_iterations,
            iteration_interval: length(self.iteration_interval),
            task_limits: self.task_limits,
        }
    }
}

/// Tasks filed from a list are filed under their own identifiers, and each comes from the list.
proof fn lemma_filed_tasks(tasks: Seq<Task>)
    ensures
        tasks_by_id(tasks).dom().finite(),
        forall|id: Uuid| #[trigger]
            tasks_by_id(tasks).contains_key(id) ==> tasks_by_id(tasks)[id].id == id && exists|i: int|
                0 <= i < tasks.len() && (#[trigger] tasks[i])@ == tasks_by_id(tasks)[id],
    decreases tasks.len(),
{
    if tasks.len() > 0 {
        let rest = tasks.drop_last();
        lemma_filed_tasks(rest);
        assert forall|id: Uuid| #[trigger] tasks_by_id(tasks).contains_key(id) implies tasks_by_id(
            tasks,
        )[id].id == id && exists|i: int|
            0 <= i < tasks.len() && (#[trigger] tasks[i])@ == tasks_by_id(tasks)[id] by {
            if id == tasks.last()@.id {
                assert(tasks[tasks.len() - 1]@ == tasks_by_id(tasks)[id]);
            } else {
                assert(tasks_by_id(rest).contains_key(id));
                let i = choose|i: int|
                    0 <= i < rest.len() && (#[trigger] rest[i])@ == tasks_by_id(rest)[id];
                assert(tasks[i]@ == tasks_by_id(tasks)[id]);
            }
        }
    }
}

impl Job {
    /// Rebuilds a job that already has a history. Of two tasks with one identifier the later stays.
    pub fn restore(fields: RestoredJob) -> (job: Self)
        ensures
            job@ == fields.job(),
            (forall|i: int|
                0 <= i < fields.tasks@.len() ==> (#[trigger] fields.tasks@[i])@.has_room_to_start())
                ==> job@.well_formed(),
    {
        let ghost given = fields.tasks@;
        let mut tasks_map: HashMap<Uuid, Task> = HashMap::new();
        let ghost mut filed: int = 0;
        assert(given.take(0) =~= Seq::empty());
        assert(tasks_of(tasks_map@) =~= Map::empty());
        for task in it: fields.tasks.into_iter()
            invariant
                it.seq() == given,
                filed == it.index(),
                tasks_of(tasks_map@) == tasks_by_id(given.take(filed)),
        {
            let ghost before = tasks_map@;
            let id: Uuid = *task.id();
            tasks_map.insert(id, task);
            proof {
                assert(given.take(filed + 1).drop_last() =~= given.take(filed));
                assert(tasks_of(tasks_map@) =~= tasks_of(before).insert(id, task@));
                filed = filed + 1;
            }
        }
        assert(given.take(filed) =~= given);
        proof {
            lemma_filed_tasks(given);
        }
        Job {
            id: fields.id,
            code: fields.code,
            iter_num: fields.iter_num,
            status: fields.status,
            tasks_by_id: tasks_map,
            updated_by_worker_id: fields.updated_by_worker_id,
            started_at: fields.started_at,
            running_at: fields.running_at,
            completed_at: fields.completed_at,
            next_start_at: fields.next_start_at,
            metadata: fields.metadata,
            version: fields.version,
            max_iterations: fields.max_iterations,
            iteration_interval: fields.iteration_interval,
            task_limits: fields.task_limits,
        }
    }

    /// Whether the current iteration ended.
    pub fn is_processed(&self) -> (processed: bool)
        ensures
            processed == self@.is_processed(),
    {
        matches!(self.status, JobStatus::Completed | JobStatus::Failed)
    }

    /// Whether the current iteration is open.
    pub fn is_ready_for_processing(&self) -> (ready: bool)
        ensures
            ready == !self@.is_processed(),
    {
        matches!(self.status, JobStatus::Started | JobStatus::Running)
    }

    /// Whether the job spent its iteration budget.
    pub fn is_iteration_limit_reached(&self) -> (reached: bool)
        ensures
            reached == self@.is_iteration_limit_reached(),
    {
        match self.max_iterations {
            Some(max_iterations) => self.iter_num >= max_iterations,
            None => false,
        }
    }

    /// Earliest moment the domain allows the next iteration to begin.
    ///
    /// `None` where no moment follows from the state. The moment itself may lie in the past, which
    /// [`Self::pick_iteration_step_at`] reads as "allowed now".
    pub fn next_iteration_start_at(&self) -> (due: Option<Moment>)
        ensures
            at(due) == self@.next_iteration_due_at(),
    {
        if !self.is_processed() || self.is_iteration_limit_reached() {
            return None;
        }
        if self.next_start_at.is_some() {
            return self.next_start_at;
        }
        // An interval that names no moment holds the next iteration back rather than releasing it:
        // starting early would be the more damaging way to be wrong. Both steps are checked because
        // an interval that converts can still carry the moment past the range a moment has.
        match self.iteration_interval {
            None => Some(self.started_at),
            Some(interval) => match TimeDelta::from_std(interval) {
                Some(delta) => self.started_at.checked_add_signed(delta),
                None => None,
            },
        }
    }

    /// What this state allows to be done at `now` about the next iteration.
    ///
    /// A spent iteration budget outranks a due moment: a job at its limit starts no further
    /// iteration, however long ago the moment for one passed.
    pub fn pick_iteration_step_at(&self, now: Moment) -> (step: IterationStep)
        ensures
            step@ == self@.iteration_step_at(now@),
    {
        if !self.is_processed() {
            return IterationStep::IterationInProgress;
        }
        if self.is_iteration_limit_reached() {
            return IterationStep::IterationBudgetSpent;
        }
        match self.next_iteration_start_at() {
            Some(due) => {
                if due.is_after(&now) {
                    IterationStep::NextIterationDueAt(due)
                } else {
                    IterationStep::NextIterationReady
                }
            },
            None => IterationStep::NextIterationUnscheduled,
        }
    }

    /// What this state allows to be done now about the next iteration; see
    /// [`Self::pick_iteration_step_at`].
    pub fn pick_iteration_step(&self) -> (step: IterationStep)
        ensures
            exists|now: int| #[trigger] is_dated(now) && step@ == self@.iteration_step_at(now),
    {
        let now = Moment::now();
        self.pick_iteration_step_at(now)
    }

    /// Whether the next iteration may start at `now`.
    pub fn is_ready_to_next_iteration_at(&self, now: Moment) -> (ready: bool)
        ensures
            ready == (self@.iteration_step_at(now@) == IterationStepView::NextIterationReady),
    {
        matches!(self.pick_iteration_step_at(now), IterationStep::NextIterationReady)
    }

    /// Whether the next iteration may start now; see [`Self::is_ready_to_next_iteration_at`].
    pub fn is_ready_to_next_iteration(&self) -> (ready: bool)
        ensures
            exists|now: int| #[trigger]
                is_dated(now) && ready == (self@.iteration_step_at(now)
                    == IterationStepView::NextIterationReady),
    {
        let now = Moment::now();
        self.is_ready_to_next_iteration_at(now)
    }

    /// Prepares the job for the next iteration at `now`, its tasks under the identifiers given.
    ///
    /// # Errors
    ///
    /// Returns [`JobError::Other`] if the next iteration is not allowed yet, or if the description
    /// cannot be planned. The job is left as it was in every error case.
    pub fn next_iteration_at(
        &mut self,
        job_def: &JobDefinition,
        worker_id: Uuid,
        task_ids: &Vec<Uuid>,
        now: Moment,
    ) -> (moved: Result<(), JobError>)
        requires
            task_ids@.len() == job_def@.initial_tasks.len(),
            old(self)@.next_iteration_refusal(job_def@, task_ids@, worker_id, now@) is None ==> old(
                self,
            )@.iter_num < u64::MAX,
        ensures
            moved is Err ==> *final(self) == *old(self),
            moves_on(
                old(self)@,
                final(self)@,
                moved,
                job_def@,
                worker_id,
                task_ids@,
                now@,
            ),
    {
        if !self.is_ready_to_next_iteration_at(now) {
            return Err(JobError::Other("job is not ready to next iteration".to_owned()));
        }
        let tasks_by_id = match plan_tasks(job_def.initial_tasks(), task_ids, worker_id) {
            Ok(tasks) => tasks,
            Err(e) => {
                return Err(e);
            },
        };
        proof {
            lemma_planned_tasks_fit(
                job_def@.initial_tasks,
                task_ids@,
                worker_id,
                job_def@.initial_tasks.len() as int,
            );
        }
        self.code = job_def.code().clone();
        self.iter_num = self.iter_num + 1;
        self.status = JobStatus::Started;
        self.tasks_by_id = tasks_by_id;
        self.updated_by_worker_id = worker_id;
        self.started_at = now;
        self.running_at = None;
        self.completed_at = None;
        self.next_start_at = None;
        self.version = String::new();
        self.max_iterations = job_def.max_iterations();
        self.iteration_interval = job_def.iteration_interval();
        self.task_limits = job_def.task_limits();
        Ok(())
    }

    /// Prepares the job for the next iteration now; see [`Self::next_iteration_at`].
    pub fn next_iteration(&mut self, job_def: &JobDefinition, worker_id: Uuid) -> (moved: Result<
        (),
        JobError,
    >)
        requires
            forall|ids: Seq<Uuid>, now: int|
                ids.len() == job_def@.initial_tasks.len() && is_dated(now) && #[trigger] old(
                    self,
                )@.next_iteration_refusal(job_def@, ids, worker_id, now) is None ==> old(
                    self,
                )@.iter_num < u64::MAX,
        ensures
            moved is Err ==> *final(self) == *old(self),
            exists|ids: Seq<Uuid>, now: int|
                all_random(ids) && ids.len() == job_def@.initial_tasks.len() && is_dated(now)
                    && #[trigger] moves_on(
                    old(self)@,
                    final(self)@,
                    moved,
                    job_def@,
                    worker_id,
                    ids,
                    now,
                ),
    {
        let task_ids = mint_ids(job_def.initial_tasks().len());
        let now = Moment::now();
        self.next_iteration_at(job_def, worker_id, &task_ids, now)
    }
}

/// Replacing one task of the map replaces its view and no other.
proof fn lemma_replaced(tasks: Map<Uuid, Task>, id: Uuid, task: Task)
    ensures
        tasks_of(tasks.remove(id).insert(id, task)) == tasks_of(tasks).insert(id, task@),
        tasks_of(tasks.insert(id, task)) == tasks_of(tasks).insert(id, task@),
{
    assert(tasks_of(tasks.remove(id).insert(id, task)) =~= tasks_of(tasks).insert(id, task@));
    assert(tasks_of(tasks.insert(id, task)) =~= tasks_of(tasks).insert(id, task@));
}

/// Putting back a task as it was changes nothing.
proof fn lemma_put_back(tasks: Map<Uuid, TaskView>, id: Uuid)
    requires
        tasks.contains_key(id),
    ensures
        tasks.insert(id, tasks[id]) == tasks,
{
    assert(tasks.insert(id, tasks[id]) =~= tasks);
}

impl Job {
    /// Checks `references` of a runtime task and gives the identifiers they name.
    ///
    /// A positional reference cannot appear here: it names a slot in the job description, and a task
    /// created at runtime is outside that description.
    fn resolve_created(&self, references: &Vec<TaskRef>) -> (resolved: Result<Vec<Uuid>, JobError>)
        ensures
            match self@.reference_refusal(references@) {
                None => resolved matches Ok(ids) && ids@ == created_ids(references@),
                Some(message) => resolved matches Err(e) && e@ == JobErrorView::Other(message),
            },
    {
        let mut resolved: Vec<Uuid> = Vec::new();
        let mut k: usize = 0;
        assert(references@.take(0) =~= Seq::empty());
        while k < references.len()
            invariant
                k <= references@.len(),
                self@.reference_refusal(references@.take(k as int)) is None,
                resolved@ =~= created_ids(references@.take(k as int)),
            decreases references@.len() - k,
        {
            proof {
                assert(references@.take(k + 1).drop_last() =~= references@.take(k as int));
                assert(references@.take(k + 1).last() == references@[k as int]);
                lemma_refused_references(self@, references@, k + 1);
            }
            match references[k].kind() {
                TaskRefKind::Initial { job_definition: _, position } => {
                    let mut message =
                        "task created at runtime cannot depend on initial task position ".to_owned();
                    let place = unsigned_text(position as u128);
                    message.append(place.as_str());
                    return Err(JobError::Other(message));
                },
                TaskRefKind::Created(dependency_id) => {
                    if !self.tasks_by_id.contains_key(&dependency_id) {
                        let mut message = "dependency task '".to_owned();
                        let name = id_text(dependency_id);
                        message.append(name.as_str());
                        message.append("' not found");
                        return Err(JobError::Other(message));
                    }
                    resolved.push(dependency_id);
                },
            }
            k = k + 1;
        }
        assert(references@.take(k as int) =~= references@);
        Ok(resolved)
    }

    /// Registers a task in the current iteration under `task_id`.
    ///
    /// `created_by_task` names the task whose execution is creating this one, which is what
    /// [`Self::fail_task`] rolls the creation back by; pass `None` where no execution is responsible
    /// for it.
    ///
    /// # Errors
    ///
    /// Returns [`JobError::Other`] if `task_def` does not pass the job's limits, if it tolerates
    /// unreachable dependencies while waiting for none, if it declares a dependency on a task the
    /// iteration does not hold, if it names an initial task by position, or
    /// if the execution named by `created_by_task` already failed its own task. That last one is what
    /// keeps the rollback whole: a task registered after the failure that rolls its siblings back
    /// would be the one part of an execution outliving it. Returns [`JobError::TaskNotFound`] if the
    /// iteration does not hold the task `created_by_task` names.
    pub fn add_task_with_id(
        &mut self,
        task_def: &TaskDefinition,
        worker_id: Uuid,
        created_by_task: Option<Uuid>,
        task_id: Uuid,
    ) -> (added: Result<Uuid, JobError>)
        requires
            old(self)@.well_formed(),
        ensures
            final(self)@.well_formed(),
            adds_task(
                old(self)@,
                final(self)@,
                added,
                task_def@,
                worker_id,
                created_by_task,
                task_id,
            ),
    {
        match task_def.validate(self.task_limits) {
            Ok(()) => {},
            Err(e) => {
                return Err(e);
            },
        }
        if !task_def.is_declares_tolerance_valid() {
            return Err(
                JobError::Other(
                    "task tolerates unreachable dependencies but depends on none".to_owned(),
                ),
            );
        }
        if let Some(parent_id) = created_by_task {
            match self.tasks_by_id.get(&parent_id) {
                None => {
                    return Err(JobError::TaskNotFound);
                },
                Some(parent) => {
                    if parent.is_failed() {
                        let mut message = "task '".to_owned();
                        let name = id_text(parent_id);
                        message.append(name.as_str());
                        message.append(
                            "' cannot create a task: its execution failed and what it created was rolled back",
                        );
                        return Err(JobError::Other(message));
                    }
                },
            }
        }
        let resolved = match self.resolve_created(task_def.depends_on()) {
            Ok(resolved) => resolved,
            Err(e) => {
                return Err(e);
            },
        };
        let task = Task::new(task_id, worker_id, created_by_task, task_def, resolved);
        proof {
            lemma_replaced(self.tasks_by_id@, task_id, task);
        }
        self.tasks_by_id.insert(task_id, task);
        Ok(task_id)
    }

    /// Registers a task in the current iteration and returns the identifier minted for it; see
    /// [`Self::add_task_with_id`].
    pub fn add_task(
        &mut self,
        task_def: &TaskDefinition,
        worker_id: Uuid,
        created_by_task: Option<Uuid>,
    ) -> (added: Result<Uuid, JobError>)
        requires
            old(self)@.well_formed(),
        ensures
            final(self)@.well_formed(),
            exists|task_id: Uuid|
                is_random_id(task_id) && #[trigger] adds_task(
                    old(self)@,
                    final(self)@,
                    added,
                    task_def@,
                    worker_id,
                    created_by_task,
                    task_id,
                ),
    {
        let task_id = new_id();
        self.add_task_with_id(task_def, worker_id, created_by_task, task_id)
    }

    /// Hands the task to `worker_id` at `now`.
    ///
    /// # Errors
    ///
    /// Returns [`JobError::TaskNotFound`] if the job does not hold the task, or the errors of
    /// [`Task::start_at`]. The job is left as it was in every error case.
    pub fn start_task_at(&mut self, task_id: &Uuid, worker_id: Uuid, now: Moment) -> (started:
        Result<(), JobError>)
        requires
            old(self)@.well_formed(),
        ensures
            final(self)@.well_formed(),
            starts_task(old(self)@, final(self)@, started, *task_id, worker_id, now@),
    {
        let ghost before = self.tasks_by_id@;
        match self.tasks_by_id.remove(task_id) {
            None => {
                assert(self.tasks_by_id@ =~= before);
                Err(JobError::TaskNotFound)
            },
            Some(mut task) => {
                proof {
                    assert(tasks_of(before).contains_key(*task_id));
                    lemma_put_back(tasks_of(before), *task_id);
                }
                let started = task.start_at(worker_id, now);
                proof {
                    lemma_replaced(before, *task_id, task);
                }
                self.tasks_by_id.insert(*task_id, task);
                if started.is_ok() {
                    self.updated_by_worker_id = worker_id;
                }
                started
            },
        }
    }

    /// Hands the task to `worker_id` now; see [`Self::start_task_at`].
    pub fn start_task(&mut self, task_id: &Uuid, worker_id: Uuid) -> (started: Result<
        (),
        JobError,
    >)
        requires
            old(self)@.well_formed(),
        ensures
            final(self)@.well_formed(),
            exists|now: int|
                is_dated(now) && #[trigger] starts_task(
                    old(self)@,
                    final(self)@,
                    started,
                    *task_id,
                    worker_id,
                    now,
                ),
    {
        let now = Moment::now();
        self.start_task_at(task_id, worker_id, now)
    }

    /// Checks a result against the size cap of the job.
    fn validate_task_output(output: &Vec<u8>, task_limits: TaskLimits) -> (valid: Result<
        (),
        JobError,
    >)
        ensures
            valid is Ok <==> output@.len() <= task_limits.max_output_bytes,
            valid matches Err(e) ==> e@ == JobErrorView::Other(
                "task output size "@ + decimal(output@.len() as int) + " exceeds limit "@
                    + decimal(task_limits.max_output_bytes as int),
            ),
    {
        if output.len() > task_limits.max_output_bytes {
            let mut message = "task output size ".to_owned();
            let size = unsigned_text(output.len() as u128);
            let limit = unsigned_text(task_limits.max_output_bytes as u128);
            message.append(size.as_str());
            message.append(" exceeds limit ");
            message.append(limit.as_str());
            return Err(JobError::Other(message));
        }
        Ok(())
    }

    /// Stores `output`, returned at `now`, as the result of the task.
    ///
    /// # Errors
    ///
    /// Returns [`JobError::Other`] if `output` exceeds the job's limits, [`JobError::TaskNotFound`] if
    /// the job does not hold the task, or the errors of [`Task::complete_at`]. The job is left as it
    /// was in every error case.
    pub fn complete_task_at(&mut self, task_id: &Uuid, output: Vec<u8>, now: Moment) -> (completed:
        Result<(), JobError>)
        requires
            old(self)@.well_formed(),
        ensures
            final(self)@.well_formed(),
            completes_task(old(self)@, final(self)@, completed, *task_id, output@, now@),
    {
        match Self::validate_task_output(&output, self.task_limits) {
            Ok(()) => {},
            Err(e) => {
                return Err(e);
            },
        }
        let ghost before = self.tasks_by_id@;
        match self.tasks_by_id.remove(task_id) {
            None => {
                assert(self.tasks_by_id@ =~= before);
                Err(JobError::TaskNotFound)
            },
            Some(mut task) => {
                proof {
                    assert(tasks_of(before).contains_key(*task_id));
                    lemma_put_back(tasks_of(before), *task_id);
                }
                let completed = task.complete_at(output, now);
                proof {
                    lemma_replaced(before, *task_id, task);
                }
                self.tasks_by_id.insert(*task_id, task);
                completed
            },
        }
    }

    /// Stores `output` now as the result of the task; see [`Self::complete_task_at`].
    pub fn complete_task(&mut self, task_id: &Uuid, output: Vec<u8>) -> (completed: Result<
        (),
        JobError,
    >)
        requires
            old(self)@.well_formed(),
        ensures
            final(self)@.well_formed(),
            exists|now: int|
                is_dated(now) && #[trigger] completes_task(
                    old(self)@,
                    final(self)@,
                    completed,
                    *task_id,
                    output@,
                    now,
                ),
    {
        let now = Moment::now();
        self.complete_task_at(task_id, output, now)
    }

    /// Drops the tasks the running execution of `task_id` created and says how many there were.
    fn drop_children(&mut self, task_id: Uuid) -> (dropped: usize)
        requires
            old(self)@.well_formed(),
        ensures
            final(self)@ == old(self)@.without_children(task_id),
            final(self)@.well_formed(),
            dropped == old(self)@.tasks.dom().len() - final(self)@.tasks.dom().len(),
    {
        let ghost before = self@;
        let order = ids_of(&self.tasks_by_id);
        let mut dropped: usize = 0;
        let mut i: usize = 0;
        assert(before.tasks.dom() =~= self.tasks_by_id@.dom());
        assert(order@.take(0).to_set() =~= Set::empty());
        assert(self@.tasks =~= without_walked_children(before.tasks, order@.take(0), task_id));
        while i < order.len()
            invariant
                i <= order@.len(),
                dropped <= i,
                order@.no_duplicates(),
                order@.to_set() == before.tasks.dom(),
                before.tasks.dom().finite(),
                self@ == (JobView {
                    tasks: without_walked_children(before.tasks, order@.take(i as int), task_id),
                    ..before
                }),
                self@.tasks.dom().finite(),
                dropped == before.tasks.dom().len() - self@.tasks.dom().len(),
            decreases order@.len() - i,
        {
            let id: Uuid = order[i];
            let ghost walked = order@.take(i as int);
            let ghost held = self@.tasks;
            let ghost held_map = self.tasks_by_id@;
            proof {
                assert(order@.to_set().contains(id));
                assert(!walked.contains(id));
                assert(held.contains_key(id));
                assert(order@.take(i + 1) =~= walked.push(id));
            }
            let is_child: bool = match self.tasks_by_id.get(&id) {
                Some(task) => match task.created_by_task() {
                    Some(parent) => parent == task_id,
                    None => false,
                },
                None => false,
            };
            assert(held_map[id]@ == held[id]);
            assert(held[id] == before.tasks[id]);
            assert(is_child == (before.tasks[id].created_by_task == Some(task_id)));
            if is_child {
                self.tasks_by_id.remove(&id);
                assert(self@.tasks =~= held.remove(id));
                dropped = dropped + 1;
            }
            assert(self@.tasks == if is_child {
                held.remove(id)
            } else {
                held
            });
            assert(self@.tasks =~= without_walked_children(
                before.tasks,
                order@.take(i + 1),
                task_id,
            )) by {
                assert forall|k: Uuid| walked.push(id).contains(k) <==> walked.contains(k) || k
                    == id by {
                    if walked.contains(k) {
                        let j = choose|j: int| 0 <= j < walked.len() && walked[j] == k;
                        assert(walked.push(id)[j] == k);
                    }
                    if k == id {
                        assert(walked.push(id)[walked.len() as int] == k);
                    }
                }
            }
            i = i + 1;
        }
        proof {
            assert(order@.take(i as int) =~= order@);
            assert(self@.tasks =~= before.without_children(task_id).tasks) by {
                assert forall|k: Uuid| before.tasks.contains_key(k) implies order@.contains(k) by {
                    assert(order@.to_set().contains(k));
                }
            }
        }
        dropped
    }

    /// Fails the task at `now` and drops the tasks its execution created, returning how many were
    /// dropped.
    ///
    /// Only what the *current* execution created is dropped: a task claimed by no open execution -
    /// one restored into this copy of the job - is left alone.
    ///
    /// The rollback is final rather than a snapshot of the moment it ran: [`Self::add_task`] refuses
    /// an execution whose own task already failed, so nothing can be attributed to this one
    /// afterwards.
    ///
    /// # Errors
    ///
    /// Returns [`JobError::TaskNotFound`] if the job does not hold `task_id`, or [`JobError::Other`]
    /// if the task is not in a state that can fail. Either way the iteration is left as it was - the
    /// rollback follows the failure rather than preceding it.
    pub fn fail_task_at(&mut self, task_id: &Uuid, error_msg: &str, now: Moment) -> (failed: Result<
        usize,
        JobError,
    >)
        requires
            old(self)@.well_formed(),
        ensures
            final(self)@.well_formed(),
            fails_task(old(self)@, final(self)@, failed, *task_id, error_msg@, now@),
    {
        let ghost before = self.tasks_by_id@;
        match self.tasks_by_id.remove(task_id) {
            None => {
                assert(self.tasks_by_id@ =~= before);
                Err(JobError::TaskNotFound)
            },
            Some(mut task) => {
                proof {
                    assert(tasks_of(before).contains_key(*task_id));
                    lemma_put_back(tasks_of(before), *task_id);
                }
                let failed = task.fail_at(error_msg, TaskRetry::WhileBudgetLasts, now);
                proof {
                    lemma_replaced(before, *task_id, task);
                    assert(tasks_of(before).insert(*task_id, task@).dom() =~= tasks_of(
                        before,
                    ).dom());
                }
                self.tasks_by_id.insert(*task_id, task);
                match failed {
                    Ok(()) => Ok(self.drop_children(*task_id)),
                    Err(e) => Err(e),
                }
            },
        }
    }

    /// Fails the task now and drops the tasks its execution created; see [`Self::fail_task_at`].
    pub fn fail_task(&mut self, task_id: &Uuid, error_msg: &str) -> (failed: Result<
        usize,
        JobError,
    >)
        requires
            old(self)@.well_formed(),
        ensures
            final(self)@.well_formed(),
            exists|now: int|
                is_dated(now) && #[trigger] fails_task(
                    old(self)@,
                    final(self)@,
                    failed,
                    *task_id,
                    error_msg@,
                    now,
                ),
    {
        let now = Moment::now();
        self.fail_task_at(task_id, error_msg, now)
    }

    /// Records that the execution holding `task_id` ended in failure at `now`, failing the task
    /// unless its executor already resolved it, and returning how many tasks the rollback dropped.
    ///
    /// An executor may resolve its own task and still end in failure. The resolution it wrote stands:
    /// the task keeps the state and the reason its executor gave it, and nothing is rolled back, since
    /// a completed task never rolled anything back and a failed one already did.
    ///
    /// # Errors
    ///
    /// Returns [`JobError::TaskNotFound`] if the job does not hold `task_id`, or the errors of
    /// [`Self::fail_task`] for a task that is still open.
    pub fn record_task_execution_failure_at(
        &mut self,
        task_id: &Uuid,
        error_msg: &str,
        now: Moment,
    ) -> (recorded: Result<usize, JobError>)
        requires
            old(self)@.well_formed(),
        ensures
            final(self)@.well_formed(),
            records_failure(old(self)@, final(self)@, recorded, *task_id, error_msg@, now@),
    {
        let resolved: bool = match self.tasks_by_id.get(task_id) {
            Some(task) => task.is_resolved(),
            None => {
                return Err(JobError::TaskNotFound);
            },
        };
        if resolved {
            return Ok(0);
        }
        self.fail_task_at(task_id, error_msg, now)
    }

    /// Records that the execution holding `task_id` ended in failure now; see
    /// [`Self::record_task_execution_failure_at`].
    pub fn record_task_execution_failure(&mut self, task_id: &Uuid, error_msg: &str) -> (recorded:
        Result<usize, JobError>)
        requires
            old(self)@.well_formed(),
        ensures
            final(self)@.well_formed(),
            exists|now: int|
                is_dated(now) && #[trigger] records_failure(
                    old(self)@,
                    final(self)@,
                    recorded,
                    *task_id,
                    error_msg@,
                    now,
                ),
    {
        let now = Moment::now();
        self.record_task_execution_failure_at(task_id, error_msg, now)
    }
}

/// The tasks without the children of `id` among those walked.
spec fn without_walked_children(tasks: Map<Uuid, TaskView>, walked: Seq<Uuid>, id: Uuid) -> Map<
    Uuid,
    TaskView,
> {
    Map::new(
        |k: Uuid|
            tasks.contains_key(k) && !(walked.contains(k) && tasks[k].created_by_task == Some(id)),
        |k: Uuid| tasks[k],
    )
}

/// Every task lies on a walk over the tasks, and the walk holds nothing else.
pub(crate) proof fn lemma_walk_covers(order: Seq<Uuid>, tasks: Map<Uuid, TaskView>)
    requires
        is_walk(order, tasks),
    ensures
        forall|id: Uuid| #[trigger] tasks.contains_key(id) <==> order.contains(id),
        order.len() == tasks.dom().len(),
        forall|i: int| 0 <= i < order.len() ==> tasks.contains_key(#[trigger] order[i]),
{
    assert forall|id: Uuid| #[trigger] tasks.contains_key(id) <==> order.contains(id) by {
        assert(order.to_set().contains(id) <==> tasks.dom().contains(id));
    }
    order.unique_seq_to_set();
    assert forall|i: int| 0 <= i < order.len() implies tasks.contains_key(#[trigger] order[i]) by {
        assert(order.contains(order[i]));
    }
}

/// The end of a walk does not change when it is resumed past tasks that decide nothing, and no task
/// before it decides anything.
pub(crate) proof fn lemma_walk_end(job: JobView, order: Seq<Uuid>, now: int, from: int)
    requires
        0 <= from <= order.len(),
    ensures
        from <= job.walk_end(order, now, from) <= order.len(),
        forall|i: int|
            from <= i < job.walk_end(order, now, from) ==> !job.is_decisive(
                #[trigger] order[i],
                now,
            ),
        job.walk_end(order, now, from) < order.len() ==> job.is_decisive(
            order[job.walk_end(order, now, from)],
            now,
        ),
    decreases order.len() - from,
{
    if from < order.len() && !job.is_decisive(order[from], now) {
        lemma_walk_end(job, order, now, from + 1);
    }
}

/// The job with the tasks among `walked` that lie on a branch given up on skipped for that.
spec fn given_up_among(job: JobView, walked: Seq<Uuid>, now: int) -> JobView {
    JobView {
        tasks: Map::new(
            |id: Uuid| job.tasks.contains_key(id),
            |id: Uuid|
                if walked.contains(id) && job.is_given_up(job.tasks[id], now) {
                    job.tasks[id].skipped(given_up_text(), SkipCause::SkippedDependency, now)
                } else {
                    job.tasks[id]
                },
        ),
        ..job
    }
}

/// A walk one task longer holds that task besides those it held, which it was not among.
proof fn lemma_walk_extended(order: Seq<Uuid>, i: int)
    requires
        order.no_duplicates(),
        0 <= i < order.len(),
    ensures
        !order.take(i).contains(order[i]),
        forall|k: Uuid|
            order.take(i + 1).contains(k) <==> order.take(i).contains(k) || k == order[i],
{
    let walked = order.take(i);
    if walked.contains(order[i]) {
        let j = choose|j: int| 0 <= j < walked.len() && walked[j] == order[i];
        assert(order[j] == order[i]);
    }
    assert(order.take(i + 1) =~= walked.push(order[i]));
    assert forall|k: Uuid| order.take(i + 1).contains(k) <==> walked.contains(k) || k == order[i] by {
        if walked.contains(k) {
            let j = choose|j: int| 0 <= j < walked.len() && walked[j] == k;
            assert(walked.push(order[i])[j] == k);
        }
        if k == order[i] {
            assert(walked.push(order[i])[walked.len() as int] == k);
        }
    }
}

/// Where no task lies on a branch given up on, giving up branches changes nothing.
pub(crate) proof fn lemma_nothing_given_up(job: JobView, steps: nat, now: int)
    requires
        forall|id: Uuid| #[trigger]
            job.tasks.contains_key(id) ==> !job.is_given_up(job.tasks[id], now),
    ensures
        job.given_up(steps, now) == job,
    decreases steps,
{
    assert(job.next_given_up(now).tasks =~= job.tasks);
    assert(job.next_given_up(now) =~= job);
    if steps > 0 {
        lemma_nothing_given_up(job, (steps - 1) as nat, now);
    }
}

/// Giving up branches skips blocked tasks and touches nothing else of the job.
pub(crate) proof fn lemma_given_up_fit(job: JobView, steps: nat, now: int)
    ensures
        ({
            let after = job.given_up(steps, now);
            &&& after == (JobView { tasks: after.tasks, ..job })
            &&& after.tasks.dom() == job.tasks.dom()
            &&& job.well_formed() ==> after.well_formed()
            &&& forall|id: Uuid| #[trigger]
                job.tasks.contains_key(id) ==> after.tasks[id] == job.tasks[id] || (
                job.tasks[id].status == TaskStatus::Blocked && after.tasks[id]
                    == job.tasks[id].skipped(
                    given_up_text(),
                    SkipCause::SkippedDependency,
                    now,
                ))
        }),
    decreases steps,
{
    if steps > 0 {
        let next = job.next_given_up(now);
        assert(next.tasks.dom() =~= job.tasks.dom());
        if job.well_formed() {
            assert forall|id: Uuid| #[trigger] next.tasks.contains_key(id) implies next.tasks[id].id
                == id && next.tasks[id].has_room_to_start() by {
                assert(job.tasks.contains_key(id));
            }
        }
        lemma_given_up_fit(next, (steps - 1) as nat, now);
        assert forall|id: Uuid| #[trigger] job.tasks.contains_key(id) implies next.tasks.contains_key(
            id,
        ) by {}
    }
}

/// The blocked tasks of the job.
spec fn blocked_tasks(job: JobView) -> Set<Uuid> {
    job.tasks.dom().filter(|id: Uuid| job.tasks[id].status == TaskStatus::Blocked)
}

/// Branches given up as many steps down as tasks are blocked leave none to give up.
proof fn lemma_given_up_ends(job: JobView, steps: nat, now: int)
    requires
        job.tasks.dom().finite(),
        blocked_tasks(job).len() <= steps,
    ensures
        forall|id: Uuid| #[trigger]
            job.given_up(steps, now).tasks.contains_key(id) ==> !job.given_up(
                steps,
                now,
            ).is_given_up(job.given_up(steps, now).tasks[id], now),
    decreases steps,
{
    if exists|id: Uuid| #[trigger]
        job.tasks.contains_key(id) && job.is_given_up(job.tasks[id], now) {
        let id = choose|id: Uuid| #[trigger]
            job.tasks.contains_key(id) && job.is_given_up(job.tasks[id], now);
        let next = job.next_given_up(now);
        assert(next.tasks.dom() =~= job.tasks.dom());
        assert(blocked_tasks(job).contains(id));
        assert(blocked_tasks(next).subset_of(blocked_tasks(job).remove(id)));
        vstd::set_lib::lemma_len_subset(blocked_tasks(next), blocked_tasks(job).remove(id));
        lemma_given_up_ends(next, (steps - 1) as nat, now);
    } else {
        lemma_nothing_given_up(job, steps, now);
    }
}

/// Giving up branches leaves none to give up.
pub(crate) proof fn lemma_branches_given_up(job: JobView, now: int)
    requires
        job.tasks.dom().finite(),
    ensures
        forall|id: Uuid| #[trigger]
            job.branches_given_up(now).tasks.contains_key(id) ==> !job.branches_given_up(
                now,
            ).is_given_up(job.branches_given_up(now).tasks[id], now),
{
    vstd::set_lib::lemma_len_subset(blocked_tasks(job), job.tasks.dom());
    lemma_given_up_ends(job, job.tasks.dom().len(), now);
}

/// Failing tasks for outliving their maximum lifetime keeps the job well formed.
proof fn lemma_lifetimes_ended_fit(job: JobView, walked: Seq<Uuid>, now: int)
    requires
        job.well_formed(),
    ensures
        job.lifetimes_ended(walked, now).well_formed(),
{
    let after = job.lifetimes_ended(walked, now);
    assert(after.tasks.dom() =~= job.tasks.dom());
    assert forall|id: Uuid| #[trigger] after.tasks.contains_key(id) implies after.tasks[id].id == id
        && after.tasks[id].has_room_to_start() by {
        assert(job.tasks.contains_key(id));
    }
}

impl Job {
    /// The identifiers of the tasks, in the order the map happens to walk them.
    pub fn walk(&self) -> (order: Vec<Uuid>)
        ensures
            is_walk(order@, self@.tasks),
    {
        let order = ids_of(&self.tasks_by_id);
        assert(self@.tasks.dom() =~= self.tasks_by_id@.dom());
        order
    }

    /// Whether every task of the iteration completed, and there is one at all.
    pub fn all_tasks_completed(&self) -> (completed: bool)
        ensures
            completed == self@.all_tasks_completed(),
    {
        let order = self.walk();
        proof {
            lemma_walk_covers(order@, self@.tasks);
        }
        if order.len() == 0 {
            return false;
        }
        let mut i: usize = 0;
        while i < order.len()
            invariant
                i <= order@.len(),
                is_walk(order@, self@.tasks),
                forall|j: int|
                    0 <= j < order@.len() ==> self@.tasks.contains_key(#[trigger] order@[j]),
                forall|j: int|
                    0 <= j < i ==> self@.tasks[#[trigger] order@[j]].status
                        == TaskStatus::Completed,
            decreases order@.len() - i,
        {
            let id: Uuid = order[i];
            assert(self@.tasks.contains_key(id));
            match self.tasks_by_id.get(&id) {
                Some(task) => {
                    if !task.is_completed() {
                        assert(self@.tasks[id].status != TaskStatus::Completed);
                        return false;
                    }
                },
                None => {},
            }
            i = i + 1;
        }
        assert forall|id: Uuid| #[trigger] self@.tasks.contains_key(id) implies self@.tasks[id].status
            == TaskStatus::Completed by {
            assert(order@.contains(id));
            let j = choose|j: int| 0 <= j < order@.len() && order@[j] == id;
            assert(self@.tasks[order@[j]].status == TaskStatus::Completed);
        }
        true
    }

    /// Whether nothing that `task` waits for holds it back at `now`: each of them completed, or settled
    /// in a way `task` declared it tolerates.
    pub fn dependencies_satisfied(&self, task: &Task, now: Moment) -> (satisfied: bool)
        ensures
            satisfied == self@.dependencies_satisfied(task@, now@),
    {
        let depends_on = task.depends_on();
        let mut k: usize = 0;
        while k < depends_on.len()
            invariant
                k <= depends_on@.len(),
                depends_on@ == task@.depends_on,
                forall|j: int|
                    0 <= j < k ==> self@.tasks.contains_key(#[trigger] task@.depends_on[j])
                        && task@.judgement(self@.tasks[task@.depends_on[j]], now@)
                        == DependencyVerdict::Unblocked,
            decreases depends_on@.len() - k,
        {
            let id: Uuid = depends_on[k];
            assert(task@.depends_on[k as int] == id);
            let unblocked: bool = match self.tasks_by_id.get(&id) {
                Some(dependency) => matches!(
                    task.judge_dependency(dependency, now),
                    DependencyVerdict::Unblocked
                ),
                None => false,
            };
            if !unblocked {
                assert(!(self@.tasks.contains_key(id) && task@.judgement(self@.tasks[id], now@)
                    == DependencyVerdict::Unblocked));
                return false;
            }
            k = k + 1;
        }
        true
    }

    /// Whether any task is currently being executed by a worker.
    pub fn has_started_task(&self) -> (started: bool)
        ensures
            started == self@.has_started_task(),
    {
        let order = self.walk();
        proof {
            lemma_walk_covers(order@, self@.tasks);
        }
        let mut i: usize = 0;
        while i < order.len()
            invariant
                i <= order@.len(),
                forall|j: int|
                    0 <= j < order@.len() ==> self@.tasks.contains_key(#[trigger] order@[j]),
                forall|j: int|
                    0 <= j < i ==> self@.tasks[#[trigger] order@[j]].status != TaskStatus::Started,
            decreases order@.len() - i,
        {
            let id: Uuid = order[i];
            assert(self@.tasks.contains_key(id));
            if let Some(task) = self.tasks_by_id.get(&id) {
                if task.is_started() {
                    return true;
                }
            }
            i = i + 1;
        }
        assert forall|id: Uuid| #[trigger] self@.tasks.contains_key(id) implies self@.tasks[id].status
            != TaskStatus::Started by {
            assert(order@.contains(id));
            let j = choose|j: int| 0 <= j < order@.len() && order@[j] == id;
            assert(self@.tasks[order@[j]].status != TaskStatus::Started);
        }
        false
    }

    /// Whether a task that waited for `id` declared that it survives its failure and resolved on its
    /// own.
    pub fn is_answered_for(&self, id: &Uuid) -> (answered: bool)
        ensures
            answered == self@.is_answered_for(*id),
    {
        let order = self.walk();
        proof {
            lemma_walk_covers(order@, self@.tasks);
        }
        let mut i: usize = 0;
        while i < order.len()
            invariant
                i <= order@.len(),
                forall|j: int|
                    0 <= j < order@.len() ==> self@.tasks.contains_key(#[trigger] order@[j]),
                forall|j: int| 0 <= j < i ==> !self@.tasks[#[trigger] order@[j]].answers_for(*id),
            decreases order@.len() - i,
        {
            let dependent_id: Uuid = order[i];
            assert(self@.tasks.contains_key(dependent_id));
            if let Some(dependent) = self.tasks_by_id.get(&dependent_id) {
                if dependent.answers_for(id) {
                    return true;
                }
            }
            i = i + 1;
        }
        assert forall|dependent: Uuid| #[trigger]
            self@.tasks.contains_key(dependent) implies !self@.tasks[dependent].answers_for(*id) by {
            assert(order@.contains(dependent));
            let j = choose|j: int| 0 <= j < order@.len() && order@[j] == dependent;
            assert(!self@.tasks[order@[j]].answers_for(*id));
        }
        false
    }

    /// Whether `task` waits for something that will never settle the way it accepts, for `cause`.
    pub fn is_held_by(&self, task: &Task, cause: SkipCause, now: Moment) -> (held: bool)
        ensures
            held == self@.is_held_by(task@, cause, now@),
    {
        let depends_on = task.depends_on();
        let mut k: usize = 0;
        while k < depends_on.len()
            invariant
                k <= depends_on@.len(),
                depends_on@ == task@.depends_on,
                forall|j: int|
                    0 <= j < k && self@.tasks.contains_key(#[trigger] task@.depends_on[j])
                        ==> task@.judgement(self@.tasks[task@.depends_on[j]], now@)
                        != DependencyVerdict::Skipped(cause),
            decreases depends_on@.len() - k,
        {
            let id: Uuid = depends_on[k];
            assert(task@.depends_on[k as int] == id);
            if let Some(dependency) = self.tasks_by_id.get(&id) {
                assert(self@.tasks.contains_key(id));
                if task.judge_dependency(dependency, now) == DependencyVerdict::Skipped(cause) {
                    return true;
                }
            }
            k = k + 1;
        }
        false
    }

    /// Whether `task` lies on a branch that was given up on.
    pub fn is_given_up(&self, task: &Task, now: Moment) -> (given_up: bool)
        ensures
            given_up == self@.is_given_up(task@, now@),
    {
        matches!(task.status(), TaskStatus::Blocked) && self.is_held_by(
            task,
            SkipCause::SkippedDependency,
            now,
        ) && !self.is_held_by(task, SkipCause::FailedDependency, now)
    }

    /// What the task says at `now` of how its iteration ends.
    fn settlement_at(&self, id: &Uuid, task: &Task, now: Moment) -> (settlement: TaskSettlement)
        requires
            self@.tasks.contains_key(*id),
            self@.tasks[*id] == task@,
        ensures
            settlement == self@.settlement_at(*id, now@),
    {
        match task.status() {
            TaskStatus::Completed => TaskSettlement::Settled,
            TaskStatus::Skipped(cause) => if cause.carries_failure() {
                TaskSettlement::Failure
            } else {
                TaskSettlement::Settled
            },
            TaskStatus::Failed => if !task.is_terminally_failed_at(now) {
                TaskSettlement::Open
            } else if self.is_answered_for(id) {
                TaskSettlement::Settled
            } else {
                TaskSettlement::Failure
            },
            TaskStatus::Blocked => if self.is_held_by(task, SkipCause::FailedDependency, now) {
                TaskSettlement::Failure
            } else {
                TaskSettlement::Open
            },
            TaskStatus::Todo | TaskStatus::Started => TaskSettlement::Open,
        }
    }

    /// Whether every task came to an end at `now` and left no failure unhandled, and there is one at
    /// all.
    pub fn is_settled_at(&self, now: Moment) -> (settled: bool)
        ensures
            settled == self@.is_settled_at(now@),
    {
        let order = self.walk();
        proof {
            lemma_walk_covers(order@, self@.tasks);
        }
        if order.len() == 0 {
            return false;
        }
        let mut i: usize = 0;
        while i < order.len()
            invariant
                i <= order@.len(),
                forall|j: int|
                    0 <= j < order@.len() ==> self@.tasks.contains_key(#[trigger] order@[j]),
                forall|j: int|
                    0 <= j < i ==> self@.settlement_at(#[trigger] order@[j], now@)
                        == TaskSettlement::Settled,
            decreases order@.len() - i,
        {
            let id: Uuid = order[i];
            assert(self@.tasks.contains_key(id));
            if let Some(task) = self.tasks_by_id.get(&id) {
                if !matches!(self.settlement_at(&id, task, now), TaskSettlement::Settled) {
                    return false;
                }
            }
            i = i + 1;
        }
        assert forall|id: Uuid| #[trigger] self@.tasks.contains_key(id) implies self@.settlement_at(
            id,
            now@,
        ) == TaskSettlement::Settled by {
            assert(order@.contains(id));
            let j = choose|j: int| 0 <= j < order@.len() && order@[j] == id;
            assert(self@.settlement_at(order@[j], now@) == TaskSettlement::Settled);
        }
        true
    }

    /// Whether a task of the iteration leaves at `now` a failure that nothing answers for.
    pub fn has_unhandled_failure_at(&self, now: Moment) -> (failed: bool)
        ensures
            failed == self@.has_unhandled_failure_at(now@),
    {
        let order = self.walk();
        proof {
            lemma_walk_covers(order@, self@.tasks);
        }
        let mut i: usize = 0;
        while i < order.len()
            invariant
                i <= order@.len(),
                forall|j: int|
                    0 <= j < order@.len() ==> self@.tasks.contains_key(#[trigger] order@[j]),
                forall|j: int|
                    0 <= j < i ==> self@.settlement_at(#[trigger] order@[j], now@)
                        != TaskSettlement::Failure,
            decreases order@.len() - i,
        {
            let id: Uuid = order[i];
            assert(self@.tasks.contains_key(id));
            if let Some(task) = self.tasks_by_id.get(&id) {
                if matches!(self.settlement_at(&id, task, now), TaskSettlement::Failure) {
                    return true;
                }
            }
            i = i + 1;
        }
        assert forall|id: Uuid| #[trigger] self@.tasks.contains_key(id) implies self@.settlement_at(
            id,
            now@,
        ) != TaskSettlement::Failure by {
            assert(order@.contains(id));
            let j = choose|j: int| 0 <= j < order@.len() && order@[j] == id;
            assert(self@.settlement_at(order@[j], now@) != TaskSettlement::Failure);
        }
        false
    }

    /// Whether a task waits at `now` for something that holds it back.
    pub fn is_deadlocked_at(&self, now: Moment) -> (deadlocked: bool)
        ensures
            deadlocked == self@.is_deadlocked_at(now@),
    {
        let order = self.walk();
        proof {
            lemma_walk_covers(order@, self@.tasks);
        }
        let mut i: usize = 0;
        while i < order.len()
            invariant
                i <= order@.len(),
                forall|j: int|
                    0 <= j < order@.len() ==> self@.tasks.contains_key(#[trigger] order@[j]),
                forall|j: int|
                    0 <= j < i ==> !(self@.tasks[#[trigger] order@[j]].status == TaskStatus::Blocked
                        && !self@.dependencies_satisfied(self@.tasks[order@[j]], now@)),
            decreases order@.len() - i,
        {
            let id: Uuid = order[i];
            assert(self@.tasks.contains_key(id));
            if let Some(task) = self.tasks_by_id.get(&id) {
                if matches!(task.status(), TaskStatus::Blocked) && !self.dependencies_satisfied(
                    task,
                    now,
                ) {
                    return true;
                }
            }
            i = i + 1;
        }
        assert forall|id: Uuid| #[trigger]
            self@.tasks.contains_key(id) implies !(self@.tasks[id].status == TaskStatus::Blocked
            && !self@.dependencies_satisfied(self@.tasks[id], now@)) by {
            assert(order@.contains(id));
            let j = choose|j: int| 0 <= j < order@.len() && order@[j] == id;
            assert(!(self@.tasks[order@[j]].status == TaskStatus::Blocked
                && !self@.dependencies_satisfied(self@.tasks[order@[j]], now@)));
        }
        false
    }

    /// Takes the job into work at `now`.
    ///
    /// # Errors
    ///
    /// Returns [`JobError::InvalidStatusTransition`] if the iteration already ended.
    pub fn work_at(&mut self, worker_id: &Uuid, now: Moment) -> (taken: Result<(), JobError>)
        ensures
            taken is Ok <==> !old(self)@.is_processed(),
            taken is Ok ==> final(self)@ == old(self)@.working(*worker_id, now@),
            taken matches Err(e) ==> final(self)@ == old(self)@ && e@ == (
            JobErrorView::InvalidStatusTransition {
                from: old(self)@.status,
                to: JobStatus::Running,
            }),
    {
        match self.status.transition_to(JobStatus::Running) {
            Ok(()) => {},
            Err(e) => {
                return Err(e);
            },
        }
        self.updated_by_worker_id = *worker_id;
        self.running_at = Some(now);
        Ok(())
    }

    /// Takes the job into work now; see [`Self::work_at`].
    pub fn work(&mut self, worker_id: &Uuid) -> (taken: Result<(), JobError>)
        ensures
            taken is Ok <==> !old(self)@.is_processed(),
            taken is Ok ==> exists|now: int| #[trigger]
                is_dated(now) && final(self)@ == old(self)@.working(*worker_id, now),
            taken matches Err(e) ==> final(self)@ == old(self)@ && e@ == (
            JobErrorView::InvalidStatusTransition {
                from: old(self)@.status,
                to: JobStatus::Running,
            }),
    {
        let now = Moment::now();
        self.work_at(worker_id, now)
    }

    /// Ends the iteration as completed at `now` if every task came to an end and no failure was left
    /// unhandled, and says whether it did. The branches below skipped tasks of a running iteration are
    /// given up first.
    ///
    /// # Errors
    ///
    /// Returns [`JobError::InvalidStatusTransition`] if that is so but the iteration is not running.
    pub fn try_to_complete_at(&mut self, worker_id: &Uuid, now: Moment) -> (ended: Result<
        bool,
        JobError,
    >)
        ensures
            completes_job(old(self)@, final(self)@, ended, *worker_id, now@),
            old(self)@.well_formed() ==> final(self)@.well_formed(),
    {
        proof {
            lemma_given_up_fit(self@, self@.tasks.dom().len(), now@);
        }
        if matches!(self.status, JobStatus::Running) {
            self.give_up_branches_at(now);
        }
        if !self.is_settled_at(now) {
            return Ok(false);
        }
        match self.status.transition_to(JobStatus::Completed) {
            Ok(()) => {},
            Err(e) => {
                return Err(e);
            },
        }
        self.updated_by_worker_id = *worker_id;
        self.completed_at = Some(now);
        Ok(true)
    }

    /// Ends the iteration as completed now if every task settled; see [`Self::try_to_complete_at`].
    pub fn try_to_complete(&mut self, worker_id: &Uuid) -> (ended: Result<bool, JobError>)
        ensures
            old(self)@.well_formed() ==> final(self)@.well_formed(),
            exists|now: int|
                is_dated(now) && #[trigger] completes_job(
                    old(self)@,
                    final(self)@,
                    ended,
                    *worker_id,
                    now,
                ),
    {
        let now = Moment::now();
        self.try_to_complete_at(worker_id, now)
    }

    /// Ends the iteration as failed at `now`.
    ///
    /// # Errors
    ///
    /// Returns [`JobError::InvalidStatusTransition`] if the iteration already ended.
    pub fn fail_at(&mut self, worker_id: &Uuid, now: Moment) -> (failed: Result<(), JobError>)
        ensures
            failed is Ok <==> !old(self)@.is_processed(),
            failed is Ok ==> final(self)@ == old(self)@.ended(JobStatus::Failed, *worker_id, now@),
            failed matches Err(e) ==> final(self)@ == old(self)@ && e@ == (
            JobErrorView::InvalidStatusTransition {
                from: old(self)@.status,
                to: JobStatus::Failed,
            }),
    {
        match self.status.transition_to(JobStatus::Failed) {
            Ok(()) => {},
            Err(e) => {
                return Err(e);
            },
        }
        self.updated_by_worker_id = *worker_id;
        self.completed_at = Some(now);
        Ok(())
    }

    /// Ends the iteration as failed now; see [`Self::fail_at`].
    pub fn fail(&mut self, worker_id: &Uuid) -> (failed: Result<(), JobError>)
        ensures
            failed is Ok <==> !old(self)@.is_processed(),
            failed is Ok ==> exists|now: int| #[trigger]
                is_dated(now) && final(self)@ == old(self)@.ended(
                    JobStatus::Failed,
                    *worker_id,
                    now,
                ),
            failed matches Err(e) ==> final(self)@ == old(self)@ && e@ == (
            JobErrorView::InvalidStatusTransition {
                from: old(self)@.status,
                to: JobStatus::Failed,
            }),
    {
        let now = Moment::now();
        self.fail_at(worker_id, now)
    }

    /// Fails the task, which is to have outlived its maximum lifetime, for that.
    fn end_lifetime(&mut self, id: Uuid, now: Moment)
        requires
            old(self)@.tasks.contains_key(id),
            old(self)@.tasks[id].availability_at(now@) == TaskAvailability::ExpiredPastLifetime,
        ensures
            final(self)@ == old(self)@.with_task(
                id,
                old(self)@.tasks[id].failed(
                    outlived_lifetime_text(old(self)@.tasks[id]),
                    TaskRetry::WhileBudgetLasts,
                    now@,
                ),
            ),
    {
        let ghost before = self.tasks_by_id@;
        if let Some(mut task) = self.tasks_by_id.remove(&id) {
            let message = describe_outlived_lifetime(&task);
            let failed = task.fail_at(message.as_str(), TaskRetry::WhileBudgetLasts, now);
            assert(failed is Ok);
            proof {
                lemma_replaced(before, id, task);
            }
            self.tasks_by_id.insert(id, task);
        }
    }

    /// Fails the first `count` of the tasks in `order` that outlived their maximum lifetime.
    fn end_lifetimes(&mut self, order: &Vec<Uuid>, count: usize, now: Moment)
        requires
            is_walk(order@, old(self)@.tasks),
            count <= order@.len(),
        ensures
            final(self)@ == old(self)@.lifetimes_ended(order@.take(count as int), now@),
    {
        let ghost before = self@;
        let mut i: usize = 0;
        proof {
            lemma_walk_covers(order@, before.tasks);
            assert(self@ =~= before.lifetimes_ended(order@.take(0), now@)) by {
                assert(self@.tasks =~= before.lifetimes_ended(order@.take(0), now@).tasks);
            }
        }
        while i < count
            invariant
                i <= count <= order@.len(),
                is_walk(order@, before.tasks),
                forall|j: int|
                    0 <= j < order@.len() ==> before.tasks.contains_key(#[trigger] order@[j]),
                self@ == before.lifetimes_ended(order@.take(i as int), now@),
            decreases count - i,
        {
            let id: Uuid = order[i];
            proof {
                lemma_walk_extended(order@, i as int);
                assert(before.tasks.contains_key(id));
                assert(self@.tasks.contains_key(id));
                assert(self@.tasks[id] == before.tasks[id]);
            }
            let expired: bool = match self.tasks_by_id.get(&id) {
                Some(task) => matches!(
                    task.check_availability_at(now),
                    TaskAvailability::ExpiredPastLifetime
                ),
                None => false,
            };
            if expired {
                self.end_lifetime(id, now);
            }
            assert(self@.tasks =~= before.lifetimes_ended(order@.take(i + 1), now@).tasks);
            assert(self@ =~= before.lifetimes_ended(order@.take(i + 1), now@));
            i = i + 1;
        }
    }

    /// Skips the blocked task because its branch was given up on.
    fn give_up_task(&mut self, id: Uuid, now: Moment)
        requires
            old(self)@.tasks.contains_key(id),
            old(self)@.tasks[id].status == TaskStatus::Blocked,
        ensures
            final(self)@ == old(self)@.with_task(
                id,
                old(self)@.tasks[id].skipped(
                    given_up_text(),
                    SkipCause::SkippedDependency,
                    now@,
                ),
            ),
    {
        let ghost before = self.tasks_by_id@;
        if let Some(mut task) = self.tasks_by_id.remove(&id) {
            let skipped = task.skip_at("dependency skipped", SkipCause::SkippedDependency, now);
            assert(skipped is Ok);
            proof {
                lemma_replaced(before, id, task);
            }
            self.tasks_by_id.insert(id, task);
        }
    }

    /// Which of the tasks in `order` lie on a branch that was given up on.
    fn find_given_up(&self, order: &Vec<Uuid>, now: Moment) -> (marks: Vec<bool>)
        requires
            is_walk(order@, self@.tasks),
        ensures
            marks@.len() == order@.len(),
            forall|i: int|
                0 <= i < order@.len() ==> #[trigger] marks@[i] == self@.is_given_up(
                    self@.tasks[order@[i]],
                    now@,
                ),
    {
        let mut marks: Vec<bool> = Vec::new();
        proof {
            lemma_walk_covers(order@, self@.tasks);
        }
        while marks.len() < order.len()
            invariant
                marks@.len() <= order@.len(),
                forall|j: int|
                    0 <= j < order@.len() ==> self@.tasks.contains_key(#[trigger] order@[j]),
                forall|i: int|
                    0 <= i < marks@.len() ==> #[trigger] marks@[i] == self@.is_given_up(
                        self@.tasks[order@[i]],
                        now@,
                    ),
            decreases order@.len() - marks@.len(),
        {
            let id: Uuid = order[marks.len()];
            assert(self@.tasks.contains_key(id));
            let mark: bool = match self.tasks_by_id.get(&id) {
                Some(task) => self.is_given_up(task, now),
                None => false,
            };
            marks.push(mark);
        }
        marks
    }

    /// Skips every task that lies on a branch given up on, and says whether there was one.
    fn give_up_next(&mut self, now: Moment) -> (found: bool)
        ensures
            final(self)@ == old(self)@.next_given_up(now@),
            found == exists|id: Uuid| #[trigger]
                old(self)@.tasks.contains_key(id) && old(self)@.is_given_up(
                    old(self)@.tasks[id],
                    now@,
                ),
    {
        let ghost before = self@;
        let order = self.walk();
        let marks = self.find_given_up(&order, now);
        proof {
            lemma_walk_covers(order@, before.tasks);
            assert(self@.tasks =~= given_up_among(before, order@.take(0), now@).tasks);
            assert(self@ =~= given_up_among(before, order@.take(0), now@));
        }
        let mut found: bool = false;
        let mut i: usize = 0;
        while i < order.len()
            invariant
                i <= order@.len(),
                marks@.len() == order@.len(),
                is_walk(order@, before.tasks),
                forall|j: int|
                    0 <= j < order@.len() ==> before.tasks.contains_key(#[trigger] order@[j]),
                forall|j: int|
                    0 <= j < order@.len() ==> #[trigger] marks@[j] == before.is_given_up(
                        before.tasks[order@[j]],
                        now@,
                    ),
                found == exists|j: int| 0 <= j < i && #[trigger] marks@[j],
                self@ == given_up_among(before, order@.take(i as int), now@),
            decreases order@.len() - i,
        {
            let id: Uuid = order[i];
            proof {
                lemma_walk_extended(order@, i as int);
                assert(before.tasks.contains_key(id));
                assert(self@.tasks.contains_key(id));
                assert(self@.tasks[id] == before.tasks[id]);
            }
            if marks[i] {
                self.give_up_task(id, now);
                found = true;
            }
            proof {
                assert(self@.tasks =~= given_up_among(before, order@.take(i + 1), now@).tasks);
                assert(self@ =~= given_up_among(before, order@.take(i + 1), now@));
                if found && !marks@[i as int] {
                    let j = choose|j: int| 0 <= j < i && #[trigger] marks@[j];
                    assert(marks@[j]);
                }
            }
            i = i + 1;
        }
        proof {
            assert(order@.take(i as int) =~= order@);
            assert(self@.tasks =~= before.next_given_up(now@).tasks);
            assert(self@ =~= before.next_given_up(now@));
            if found {
                let j = choose|j: int| 0 <= j < i && #[trigger] marks@[j];
                assert(before.tasks.contains_key(order@[j]));
            }
            if exists|id: Uuid| #[trigger]
                before.tasks.contains_key(id) && before.is_given_up(before.tasks[id], now@) {
                let id = choose|id: Uuid| #[trigger]
                    before.tasks.contains_key(id) && before.is_given_up(before.tasks[id], now@);
                assert(order@.contains(id));
                let j = choose|j: int| 0 <= j < order@.len() && order@[j] == id;
                assert(marks@[j]);
            }
        }
        found
    }

    /// Gives up the branches below skipped tasks, down to where a task tolerates it.
    pub fn give_up_branches_at(&mut self, now: Moment)
        ensures
            final(self)@ == old(self)@.branches_given_up(now@),
    {
        let ghost before = self@;
        let order = self.walk();
        let steps: usize = order.len();
        proof {
            lemma_walk_covers(order@, before.tasks);
        }
        let mut i: usize = 0;
        while i < steps
            invariant
                i <= steps,
                before == old(self)@,
                steps == before.tasks.dom().len(),
                before.given_up(steps as nat, now@) == self@.given_up((steps - i) as nat, now@),
            decreases steps - i,
        {
            let ghost job = self@;
            let found: bool = self.give_up_next(now);
            if !found {
                proof {
                    lemma_nothing_given_up(job, (steps - i) as nat, now@);
                    lemma_nothing_given_up(job, 1, now@);
                    assert(job.given_up(1, now@) == job.next_given_up(now@).given_up(0, now@));
                }
                return;
            }
            i = i + 1;
        }
    }

    /// Makes the blocked task runnable.
    fn unblock_task(&mut self, id: Uuid)
        requires
            old(self)@.tasks.contains_key(id),
        ensures
            final(self)@ == old(self)@.with_task(id, old(self)@.tasks[id].unblocked()),
    {
        let ghost before = self.tasks_by_id@;
        if let Some(mut task) = self.tasks_by_id.remove(&id) {
            task.unblock();
            proof {
                lemma_replaced(before, id, task);
            }
            self.tasks_by_id.insert(id, task);
        }
    }

    /// Where a worker that walks the tasks in `order` stops.
    fn find_walk_end(&self, order: &Vec<Uuid>, now: Moment) -> (end: usize)
        requires
            is_walk(order@, self@.tasks),
        ensures
            end == self@.walk_end(order@, now@, 0),
            end <= order@.len(),
    {
        let mut i: usize = 0;
        proof {
            lemma_walk_covers(order@, self@.tasks);
            lemma_walk_end(self@, order@, now@, 0);
        }
        while i < order.len()
            invariant
                i <= order@.len(),
                forall|j: int|
                    0 <= j < order@.len() ==> self@.tasks.contains_key(#[trigger] order@[j]),
                self@.walk_end(order@, now@, i as int) == self@.walk_end(order@, now@, 0),
            decreases order@.len() - i,
        {
            let id: Uuid = order[i];
            assert(self@.tasks.contains_key(id));
            if let Some(task) = self.tasks_by_id.get(&id) {
                let decisive: bool = match task.status() {
                    TaskStatus::Completed | TaskStatus::Skipped(_) => false,
                    TaskStatus::Blocked => self.dependencies_satisfied(task, now),
                    TaskStatus::Todo | TaskStatus::Failed | TaskStatus::Started => {
                        task.can_be_picked_up_at(now)
                    },
                };
                assert(decisive == self@.is_decisive(id, now@));
                if decisive {
                    return i;
                }
            }
            i = i + 1;
        }
        i
    }

    /// What becomes of an iteration in which a worker found nothing to start.
    fn conclude_walk(&mut self, worker_id: &Uuid, now: Moment) -> (picked: Result<
        TaskPickup,
        JobError,
    >)
        requires
            old(self)@.status == JobStatus::Running,
        ensures
            final(self)@ == old(self)@.verdict(*worker_id, now@).0,
            picks(picked, old(self)@.verdict(*worker_id, now@).1),
    {
        if self.all_tasks_completed() {
            let mut message = "wrong running job ".to_owned();
            message.append(self.code.as_str());
            message.append(" state - all tasks complete");
            return Err(JobError::Other(message));
        }
        if !self.has_started_task() {
            if self.is_settled_at(now) {
                return match self.status.transition_to(JobStatus::Completed) {
                    Ok(()) => {
                        self.updated_by_worker_id = *worker_id;
                        self.completed_at = Some(now);
                        Ok(TaskPickup::Settled)
                    },
                    Err(e) => Err(e),
                };
            }
            if self.has_unhandled_failure_at(now) {
                return match self.fail_at(worker_id, now) {
                    Ok(()) => Ok(TaskPickup::Exhausted),
                    Err(e) => Err(e),
                };
            }
            if self.is_deadlocked_at(now) {
                let mut message = "job ".to_owned();
                message.append(self.code.as_str());
                message.append(" deadlock: blocked tasks with unmet dependencies");
                return Err(JobError::Other(message));
            }
        }
        Ok(TaskPickup::Waiting)
    }

    /// Selects the task `worker_id` is to execute next at `now`, walking the tasks in `order` and
    /// failing those that outlived their maximum lifetime on the way.
    ///
    /// # Errors
    ///
    /// Returns [`JobError::InvalidStatusTransition`] if the iteration already ended, or
    /// [`JobError::Other`] if every task completed while the iteration is open, or if what is left is
    /// blocked behind nothing that can still run.
    pub fn pick_in_order(&mut self, worker_id: &Uuid, order: &Vec<Uuid>, now: Moment) -> (picked:
        Result<TaskPickup, JobError>)
        requires
            old(self)@.well_formed(),
            is_walk(order@, old(self)@.tasks),
        ensures
            final(self)@.well_formed(),
            final(self)@ == old(self)@.picked(*worker_id, order@, now@).0,
            picks(picked, old(self)@.picked(*worker_id, order@, now@).1),
    {
        let ghost before = self@;
        if !matches!(self.status, JobStatus::Running) {
            match self.work_at(worker_id, now) {
                Ok(()) => {},
                Err(e) => {
                    return Err(e);
                },
            }
        }
        let ghost job = self@;
        let end: usize = self.find_walk_end(order, now);
        proof {
            lemma_walk_covers(order@, job.tasks);
            lemma_walk_end(job, order@, now@, 0);
            lemma_lifetimes_ended_fit(job, order@.take(end as int), now@);
        }
        if end < order.len() {
            let id: Uuid = order[end];
            assert(job.tasks.contains_key(id));
            let blocked: bool = match self.tasks_by_id.get(&id) {
                Some(task) => matches!(task.status(), TaskStatus::Blocked),
                None => false,
            };
            if !blocked {
                return Ok(TaskPickup::Ready(id));
            }
            self.end_lifetimes(order, end, now);
            self.unblock_task(id);
            return Ok(TaskPickup::Ready(id));
        }
        // This mutates task state only; the verdict below then sees these tasks as terminal and ends
        // the iteration as failed, unless a task tolerates that or another one still in flight keeps
        // the iteration waiting.
        self.end_lifetimes(order, end, now);
        proof {
            assert(self@.tasks.dom() =~= job.tasks.dom());
            lemma_given_up_fit(self@, self@.tasks.dom().len(), now@);
        }
        self.give_up_branches_at(now);
        let ghost ended = self@;
        let end: usize = self.find_walk_end(order, now);
        proof {
            lemma_walk_end(ended, order@, now@, 0);
        }
        if end < order.len() {
            let id: Uuid = order[end];
            assert(ended.tasks.contains_key(id));
            self.unblock_task(id);
            return Ok(TaskPickup::Ready(id));
        }
        self.conclude_walk(worker_id, now)
    }

    /// Selects the task this worker is to execute next, failing the tasks that outlived their
    /// maximum lifetime on the way; see [`Self::pick_in_order`].
    ///
    /// The tasks are walked in the order the map has them, which differs from one map to the next,
    /// so that workers over the same job do not all reach for the same task.
    pub fn pick_task_to_execute(&mut self, worker_id: &Uuid) -> (picked: Result<
        TaskPickup,
        JobError,
    >)
        requires
            old(self)@.well_formed(),
        ensures
            final(self)@.well_formed(),
            exists|order: Seq<Uuid>, now: int|
                is_walk(order, old(self)@.tasks) && is_dated(now) && final(self)@ == (
                #[trigger] old(self)@.picked(*worker_id, order, now)).0 && picks(
                    picked,
                    old(self)@.picked(*worker_id, order, now).1,
                ),
    {
        let order = self.walk();
        let now = Moment::now();
        self.pick_in_order(worker_id, &order, now)
    }
}

impl Job {
    /// Identifier of the job, the same for every iteration.
    pub fn id(&self) -> (value: &Uuid)
        ensures
            *value == self@.id,
    {
        &self.id
    }

    /// Code of the job's description.
    pub fn code(&self) -> (value: &JobCode)
        ensures
            value@ == self@.code,
    {
        &self.code
    }

    /// Number of the current iteration, counted from 1.
    pub fn iter_num(&self) -> (value: u64)
        ensures
            value == self@.iter_num,
    {
        self.iter_num
    }

    /// State of the current iteration.
    pub fn status(&self) -> (value: &JobStatus)
        ensures
            *value == self@.status,
    {
        &self.status
    }

    /// Version of the stored state this copy was read from.
    pub fn version(&self) -> (value: &str)
        ensures
            value@ == self@.version,
    {
        self.version.as_str()
    }

    /// Start of the current iteration.
    pub fn started_at(&self) -> (value: Moment)
        ensures
            value@ == self@.started_at,
    {
        self.started_at
    }

    /// Moment the iteration was taken into work last.
    pub fn running_at(&self) -> (value: Option<Moment>)
        ensures
            at(value) == self@.running_at,
    {
        self.running_at
    }

    /// Moment the iteration ended.
    pub fn completed_at(&self) -> (value: Option<Moment>)
        ensures
            at(value) == self@.completed_at,
    {
        self.completed_at
    }

    /// Earliest moment of the next iteration, where one was set.
    pub fn next_start_at(&self) -> (value: Option<Moment>)
        ensures
            at(value) == self@.next_start_at,
    {
        self.next_start_at
    }

    /// Values the job carries along.
    pub fn metadata(&self) -> (value: &HashMap<String, serde_json::Value>)
        ensures
            value@ == self@.metadata,
    {
        &self.metadata
    }

    /// Worker that changed the job last.
    pub fn updated_by_worker_id(&self) -> (value: Uuid)
        ensures
            value == self@.updated_by_worker_id,
    {
        self.updated_by_worker_id
    }

    /// Iteration cap, or `None` for an endlessly repeating job.
    pub fn max_iterations(&self) -> (value: Option<u64>)
        ensures
            value == self@.max_iterations,
    {
        self.max_iterations
    }

    /// Minimum delay between the starts of consecutive iterations.
    pub fn iteration_interval(&self) -> (value: Option<Duration>)
        ensures
            length(value) == self@.iteration_interval,
    {
        self.iteration_interval
    }

    /// Payload size caps applied to the job's tasks.
    pub fn task_limits(&self) -> (value: TaskLimits)
        ensures
            value == self@.task_limits,
    {
        self.task_limits
    }

    /// Records the version the job was stored under.
    pub fn update_version(&mut self, version: String)
        ensures
            final(self)@ == (JobView { version: version@, ..old(self)@ }),
    {
        self.version = version;
    }

    /// Sets the earliest moment of the next iteration.
    pub fn set_next_start_at(&mut self, next_start_at: Moment)
        ensures
            final(self)@ == (JobView { next_start_at: Some(next_start_at@), ..old(self)@ }),
    {
        self.next_start_at = Some(next_start_at);
    }

    /// Borrows the task `task_id` names.
    ///
    /// # Errors
    ///
    /// Returns [`JobError::TaskNotFound`] if the job does not hold the task.
    pub fn find_task(&self, task_id: &Uuid) -> (found: Result<&Task, JobError>)
        ensures
            found is Ok <==> self@.tasks.contains_key(*task_id),
            found matches Ok(task) ==> task@ == self@.tasks[*task_id],
            found matches Err(e) ==> e@ == JobErrorView::TaskNotFound,
    {
        match self.tasks_by_id.get(task_id) {
            Some(task) => Ok(task),
            None => Err(JobError::TaskNotFound),
        }
    }

    /// A copy of the task `task_id` names, as it is now.
    ///
    /// # Errors
    ///
    /// Returns [`JobError::TaskNotFound`] if the job does not hold the task.
    pub fn get_task(&self, task_id: &Uuid) -> (found: Result<Task, JobError>)
        ensures
            found is Ok <==> self@.tasks.contains_key(*task_id),
            found matches Ok(task) ==> task@ == self@.tasks[*task_id],
            found matches Err(e) ==> e@ == JobErrorView::TaskNotFound,
    {
        match self.find_task(task_id) {
            Ok(task) => Ok(task.clone()),
            Err(e) => Err(e),
        }
    }

    /// Copies of the tasks whose code is `code`, in no particular order.
    pub fn get_tasks_by_code(&self, code: &TaskCode) -> (found: Vec<Task>)
        requires
            self@.well_formed(),
        ensures
            forall|i: int|
                0 <= i < found@.len() ==> {
                    let task = (#[trigger] found@[i])@;
                    self@.tasks.contains_key(task.id) && self@.tasks[task.id] == task && task.code
                        == code@
                },
            forall|i: int, j: int|
                0 <= i < j < found@.len() ==> (#[trigger] found@[i])@.id != (
                #[trigger] found@[j])@.id,
            forall|id: Uuid| #[trigger]
                self@.tasks.contains_key(id) && self@.tasks[id].code == code@ ==> exists|i: int|
                    0 <= i < found@.len() && (#[trigger] found@[i])@.id == id,
    {
        let order = self.walk();
        proof {
            lemma_walk_covers(order@, self@.tasks);
        }
        let mut found: Vec<Task> = Vec::new();
        let mut i: usize = 0;
        while i < order.len()
            invariant
                i <= order@.len(),
                self@.well_formed(),
                order@.no_duplicates(),
                forall|j: int|
                    0 <= j < order@.len() ==> self@.tasks.contains_key(#[trigger] order@[j]),
                forall|k: int|
                    0 <= k < found@.len() ==> {
                        let task = (#[trigger] found@[k])@;
                        self@.tasks.contains_key(task.id) && self@.tasks[task.id] == task
                            && task.code == code@ && order@.take(i as int).contains(task.id)
                    },
                forall|k: int, l: int|
                    0 <= k < l < found@.len() ==> (#[trigger] found@[k])@.id != (
                    #[trigger] found@[l])@.id,
                forall|j: int|
                    0 <= j < i && self@.tasks[#[trigger] order@[j]].code == code@ ==> exists|k: int|
                        0 <= k < found@.len() && (#[trigger] found@[k])@.id == order@[j],
            decreases order@.len() - i,
        {
            let id: Uuid = order[i];
            let ghost walked = order@.take(i as int);
            let ghost before = found@;
            proof {
                assert(self@.tasks.contains_key(id));
                assert(order@.take(i + 1) =~= walked.push(id));
                assert(!walked.contains(id)) by {
                    if walked.contains(id) {
                        let j = choose|j: int| 0 <= j < walked.len() && walked[j] == id;
                        assert(order@[j] == order@[i as int]);
                    }
                }
                assert forall|k: Uuid| walked.contains(k) implies walked.push(id).contains(k) by {
                    let j = choose|j: int| 0 <= j < walked.len() && walked[j] == k;
                    assert(walked.push(id)[j] == k);
                }
                assert(walked.push(id)[walked.len() as int] == id);
            }
            if let Some(task) = self.tasks_by_id.get(&id) {
                if task.code().equals(code) {
                    found.push(task.clone());
                    assert(found@[before.len() as int]@.id == id);
                }
            }
            assert forall|j: int|
                0 <= j < i + 1 && self@.tasks[#[trigger] order@[j]].code
                    == code@ implies exists|k: int|
                0 <= k < found@.len() && (#[trigger] found@[k])@.id == order@[j] by {
                if j < i {
                    let k = choose|k: int|
                        0 <= k < before.len() && (#[trigger] before[k])@.id == order@[j];
                    assert(found@[k]@.id == order@[j]);
                }
            }
            i = i + 1;
        }
        assert forall|id: Uuid| #[trigger]
            self@.tasks.contains_key(id) && self@.tasks[id].code == code@ implies exists|k: int|
            0 <= k < found@.len() && (#[trigger] found@[k])@.id == id by {
            assert(order@.contains(id));
            let j = choose|j: int| 0 <= j < order@.len() && order@[j] == id;
            assert(self@.tasks[order@[j]].code == code@);
        }
        found
    }

    /// Copies of all tasks, in no particular order.
    pub fn tasks(&self) -> (found: Vec<Task>)
        requires
            self@.well_formed(),
        ensures
            tasks_by_id(found@) == self@.tasks,
            found@.len() == self@.tasks.dom().len(),
    {
        let order = self.walk();
        proof {
            lemma_walk_covers(order@, self@.tasks);
        }
        let mut found: Vec<Task> = Vec::new();
        let mut i: usize = 0;
        assert(order@.take(0) =~= Seq::empty());
        assert(tasks_by_id(found@) =~= self@.tasks.restrict(order@.take(0).to_set()));
        while i < order.len()
            invariant
                i <= order@.len(),
                self@.well_formed(),
                forall|j: int|
                    0 <= j < order@.len() ==> self@.tasks.contains_key(#[trigger] order@[j]),
                found@.len() == i,
                tasks_by_id(found@) == self@.tasks.restrict(order@.take(i as int).to_set()),
            decreases order@.len() - i,
        {
            let id: Uuid = order[i];
            let ghost walked = order@.take(i as int);
            let ghost before = found@;
            assert(self@.tasks.contains_key(id));
            if let Some(task) = self.tasks_by_id.get(&id) {
                let copy = task.clone();
                found.push(copy);
                proof {
                    assert(found@.drop_last() =~= before);
                    assert(order@.take(i + 1) =~= walked.push(id));
                    assert(walked.push(id).to_set() =~= walked.to_set().insert(id)) by {
                        assert forall|k: Uuid| walked.push(id).to_set().contains(k)
                            <==> walked.to_set().insert(id).contains(k) by {
                            if walked.contains(k) {
                                let j = choose|j: int| 0 <= j < walked.len() && walked[j] == k;
                                assert(walked.push(id)[j] == k);
                            }
                            if k == id {
                                assert(walked.push(id)[walked.len() as int] == k);
                            }
                        }
                    }
                    assert(tasks_by_id(found@) =~= self@.tasks.restrict(
                        order@.take(i + 1).to_set(),
                    ));
                }
            }
            i = i + 1;
        }
        proof {
            assert(order@.take(i as int) =~= order@);
            assert(self@.tasks.restrict(order@.to_set()) =~= self@.tasks);
        }
        found
    }

    /// The first tasks in words, walked in `order`.
    fn tasks_in_order_as_string(&self, order: &Vec<Uuid>) -> (summary: String)
        requires
            is_walk(order@, self@.tasks),
        ensures
            summary@ == task_summary(self@.tasks, order@),
    {
        let mut summary = String::new();
        let mut i: usize = 0;
        proof {
            lemma_walk_covers(order@, self@.tasks);
        }
        assert(order@.take(0) =~= Seq::empty());
        while i < order.len()
            invariant
                i <= order@.len(),
                i < 4,
                forall|j: int|
                    0 <= j < order@.len() ==> self@.tasks.contains_key(#[trigger] order@[j]),
                summary@ == task_entries(self@.tasks, order@.take(i as int)),
            decreases order@.len() - i,
        {
            let id: Uuid = order[i];
            assert(self@.tasks.contains_key(id));
            assert(order@.take(i + 1).drop_last() =~= order@.take(i as int));
            assert(order@.take(i + 1).last() == id);
            if let Some(task) = self.tasks_by_id.get(&id) {
                let name = id_text(id);
                let status = task.status().to_text();
                summary.append("id: ");
                summary.append(name.as_str());
                summary.append("; code: ");
                summary.append(task.code().as_str());
                summary.append("; status: ");
                summary.append(status.as_str());
                summary.append("; ");
            }
            i = i + 1;
            if i > 3 {
                summary.append("...");
                return summary;
            }
        }
        assert(order@.take(i as int) =~= order@);
        summary
    }

    /// The first tasks in words, in no particular order, for an operator to read.
    pub fn tasks_as_string(&self) -> (summary: String)
        ensures
            exists|order: Seq<Uuid>|
                is_walk(order, self@.tasks) && summary@ == #[trigger] task_summary(
                    self@.tasks,
                    order,
                ),
    {
        let order = self.walk();
        self.tasks_in_order_as_string(&order)
    }

    /// Refuses a merge where another worker already owns the task in this stored job.
    fn check_task_stolen(&self, task_id: &Uuid, worker_id: &Uuid) -> (kept: Result<(), JobError>)
        ensures
            match self@.theft(*task_id, *worker_id) {
                None => kept is Ok,
                Some(error) => kept matches Err(e) && e@ == error,
            },
    {
        match self.find_task(task_id) {
            Err(e) => Err(e),
            Ok(task) => match task.processing_by_worker() {
                Some(holder) if holder != *worker_id => Err(JobError::TaskWorkerMismatch),
                _ => Ok(()),
            },
        }
    }

    /// Moves the state of this stored job to that of `worker_job`, `prefix` opening the message of a
    /// refusal.
    fn merge_status(&mut self, worker_job: &Job, prefix: &str, suffix: &str) -> (merged: Result<
        (),
        JobError,
    >)
        ensures
            merged is Ok <==> old(self)@.status.leads_to(worker_job@.status),
            merged is Ok ==> final(self)@ == (JobView { status: worker_job@.status, ..old(self)@ }),
            merged matches Err(e) ==> final(self)@ == old(self)@ && e@ == JobErrorView::Other(
                prefix@ + old(self)@.code + suffix@ + (JobErrorView::InvalidStatusTransition {
                    from: old(self)@.status,
                    to: worker_job@.status,
                }).text(),
            ),
    {
        match self.status.transition_to(worker_job.status) {
            Ok(()) => Ok(()),
            Err(e) => {
                let mut message = prefix.to_owned();
                let reason = e.message();
                message.append(self.code.as_str());
                message.append(suffix);
                message.append(reason.as_str());
                Err(JobError::Other(message))
            },
        }
    }

    /// Brings the start of a task into this stored job. Called when a worker picked and started the
    /// task but lost the race to save it.
    ///
    /// # Errors
    ///
    /// Returns [`JobError::TaskNotFound`] if either job does not hold the task,
    /// [`JobError::TaskWorkerMismatch`] if another worker owns it here, or [`JobError::Other`] if the
    /// jobs are different ones, the worker did not start the task, or the iteration cannot move to
    /// the worker's state. The job is left as it was in every error case.
    pub fn merge_with_picked_task(&mut self, worker_job: &Job, worker_id: &Uuid, task_id: &Uuid) -> (
    merged: Result<(), JobError>)
        requires
            old(self)@.well_formed(),
            worker_job@.well_formed(),
        ensures
            final(self)@.well_formed(),
            merges_picked(
                old(self)@,
                final(self)@,
                merged,
                worker_job@,
                *worker_id,
                *task_id,
            ),
    {
        if self.id != worker_job.id {
            let mut message = "merge picked task for job '".to_owned();
            message.append(self.code.as_str());
            message.append("' failed - IDs are different");
            return Err(JobError::Other(message));
        }
        match self.check_task_stolen(task_id, worker_id) {
            Ok(()) => {},
            Err(e) => {
                return Err(e);
            },
        }
        let worker_task = match worker_job.find_task(task_id) {
            Ok(task) => task,
            Err(e) => {
                return Err(e);
            },
        };
        if !worker_task.is_started() {
            let mut message = "merge picked task for job '".to_owned();
            let worker = id_text(*worker_id);
            message.append(self.code.as_str());
            message.append("' failed - worker task is not started by worker '");
            message.append(worker.as_str());
            message.append("'");
            return Err(JobError::Other(message));
        }
        match self.merge_status(worker_job, "merge picked task for job '", "' status failed: ") {
            Ok(()) => {},
            Err(e) => {
                return Err(e);
            },
        }
        let task = worker_task.clone();
        proof {
            lemma_replaced(self.tasks_by_id@, *task_id, task);
        }
        self.tasks_by_id.insert(*task_id, task);
        self.updated_by_worker_id = *worker_id;
        if self.running_at.is_none() {
            self.running_at = worker_job.running_at;
        }
        Ok(())
    }

    /// Brings the tasks of `worker_job` that `worker_id` may write into this stored job.
    fn take_over_tasks(&mut self, worker_job: &Job, worker_id: &Uuid)
        requires
            old(self)@.well_formed(),
            worker_job@.well_formed(),
        ensures
            final(self)@.well_formed(),
            final(self)@ == (JobView {
                tasks: old(self)@.merged_with_processed(worker_job@, *worker_id).tasks,
                ..old(self)@
            }),
    {
        let ghost before = self@;
        let order = worker_job.walk();
        let mut i: usize = 0;
        proof {
            lemma_walk_covers(order@, worker_job@.tasks);
            assert(self@.tasks =~= taken_over(before, worker_job@, *worker_id, order@.take(0)));
        }
        while i < order.len()
            invariant
                i <= order@.len(),
                before.well_formed(),
                worker_job@.well_formed(),
                order@.no_duplicates(),
                forall|j: int|
                    0 <= j < order@.len() ==> worker_job@.tasks.contains_key(#[trigger] order@[j]),
                self@.tasks.dom().finite(),
                self@ == (JobView {
                    tasks: taken_over(before, worker_job@, *worker_id, order@.take(i as int)),
                    ..before
                }),
            decreases order@.len() - i,
        {
            let id: Uuid = order[i];
            let ghost walked = order@.take(i as int);
            let ghost held = self.tasks_by_id@;
            proof {
                assert(worker_job@.tasks.contains_key(id));
                assert(order@.take(i + 1) =~= walked.push(id));
                assert(!walked.contains(id)) by {
                    if walked.contains(id) {
                        let j = choose|j: int| 0 <= j < walked.len() && walked[j] == id;
                        assert(order@[j] == order@[i as int]);
                    }
                }
                assert forall|k: Uuid| walked.push(id).contains(k) <==> walked.contains(k) || k
                    == id by {
                    if walked.contains(k) {
                        let j = choose|j: int| 0 <= j < walked.len() && walked[j] == k;
                        assert(walked.push(id)[j] == k);
                    }
                    if k == id {
                        assert(walked.push(id)[walked.len() as int] == k);
                    }
                }
                assert(self@.tasks.contains_key(id) == before.tasks.contains_key(id));
            }
            if let Some(task) = worker_job.tasks_by_id.get(&id) {
                let is_taken: bool = match task.processing_by_worker() {
                    Some(holder) => holder == *worker_id,
                    None => task.created_by_worker() == *worker_id
                        && !self.tasks_by_id.contains_key(&id),
                };
                assert(is_taken == before.takes_over(worker_job@, *worker_id, id));
                if is_taken {
                    let copy = task.clone();
                    proof {
                        lemma_replaced(held, id, copy);
                    }
                    self.tasks_by_id.insert(id, copy);
                }
            }
            assert(self@.tasks =~= taken_over(
                before,
                worker_job@,
                *worker_id,
                order@.take(i + 1),
            ));
            i = i + 1;
        }
        proof {
            assert(order@.take(i as int) =~= order@);
            assert(self@.tasks =~= before.merged_with_processed(worker_job@, *worker_id).tasks);
        }
    }

    /// Brings the result of a task into this stored job. Called after a worker handled the task.
    ///
    /// The worker's copy is a snapshot from the moment it read the job, so it may only overwrite what
    /// this worker changed since: the tasks it processed, and those its execution created. A task the
    /// worker created during an earlier execution is kept as it is stored, or it would come back as
    /// "to do" and be executed a second time.
    ///
    /// # Errors
    ///
    /// Returns [`JobError::TaskNotFound`] if this job does not hold the task,
    /// [`JobError::TaskWorkerMismatch`] if another worker owns it here, or [`JobError::Other`] if the
    /// jobs are different ones or the iteration cannot move to the worker's state. The job is left as
    /// it was in every error case.
    pub fn merge_with_processed_task(
        &mut self,
        worker_job: &Job,
        worker_id: &Uuid,
        task_id: &Uuid,
    ) -> (merged: Result<(), JobError>)
        requires
            old(self)@.well_formed(),
            worker_job@.well_formed(),
        ensures
            final(self)@.well_formed(),
            merges_processed(
                old(self)@,
                final(self)@,
                merged,
                worker_job@,
                *worker_id,
                *task_id,
            ),
    {
        let ghost before = self@;
        if self.id != worker_job.id {
            let mut message = "merge job '".to_owned();
            message.append(self.code.as_str());
            message.append("' failed - IDs are different");
            return Err(JobError::Other(message));
        }
        match self.check_task_stolen(task_id, worker_id) {
            Ok(()) => {},
            Err(e) => {
                return Err(e);
            },
        }
        match self.merge_status(worker_job, "merge job '", "' status failed: ") {
            Ok(()) => {},
            Err(e) => {
                return Err(e);
            },
        }
        self.take_over_tasks(worker_job, worker_id);
        assert(self@.tasks =~= before.merged_with_processed(worker_job@, *worker_id).tasks);
        self.updated_by_worker_id = *worker_id;
        if worker_job.completed_at.is_some() {
            self.completed_at = worker_job.completed_at;
        }
        if worker_job.running_at.is_some() {
            self.running_at = worker_job.running_at;
        }
        if worker_job.next_start_at.is_some() {
            self.next_start_at = worker_job.next_start_at;
        }
        Ok(())
    }
}

/// The tasks of `job` once those among `walked` were taken over from `worker_job`.
spec fn taken_over(job: JobView, worker_job: JobView, worker: Uuid, walked: Seq<Uuid>) -> Map<
    Uuid,
    TaskView,
> {
    Map::new(
        |id: Uuid|
            job.tasks.contains_key(id) || (walked.contains(id) && job.takes_over(
                worker_job,
                worker,
                id,
            )),
        |id: Uuid|
            if walked.contains(id) && job.takes_over(worker_job, worker, id) {
                worker_job.tasks[id]
            } else {
                job.tasks[id]
            },
    )
}

} // verus!
