//! Job descriptions: what a job starts every iteration with, and by which rules it repeats.

use vstd::prelude::*;

use crate::code::{JobCode, TaskCode};
use crate::error::{Error, ErrorView};
use crate::executors::{bind, ExecutorId, TaskExecutors};
use crate::graph::{edges_of, find_dependency_cycle, in_range, on_cycle};
use crate::task::{
    idle_tolerance_text, TaskDefinition, TaskDefinitionView, TaskRef, TaskRefKind, Uuid,
};
use crate::text::{decimal, id_text, is_random_id, new_id, unsigned_text, uuid_text};
use crate::time::{is_delta, length, Duration, TimeDelta};

verus! {

/// Payload size caps applied to every task of a job.
///
/// Oversized payloads are rejected with an error, never truncated: an input above the cap fails job
/// creation or the creation of the task, an output above the cap fails its completion and leaves the
/// task unfinished. Since the limits are not persisted with the job state but re-read from the job's
/// description on every load, changing them also affects jobs that already exist in storage.
#[derive(Debug, Clone, Copy)]
pub struct TaskLimits {
    /// Maximum size of a task input payload. Defaults to 10 `MiB`.
    pub max_input_bytes: usize,
    /// Maximum size of a task output payload. Defaults to 10 `MiB`.
    pub max_output_bytes: usize,
}

impl Default for TaskLimits {
    fn default() -> (limits: Self)
        ensures
            limits.max_input_bytes == 10_485_760,
            limits.max_output_bytes == 10_485_760,
    {
        TaskLimits { max_input_bytes: 10 * 1024 * 1024, max_output_bytes: 10 * 1024 * 1024 }
    }
}

/// Identity of a job description, distinct from that of every other description.
///
/// A reference to an initial task names a position, and a position only means something together
/// with the description it belongs to. This is what carries that "which description" part, so a
/// reference handed out by one job cannot be resolved against another.
#[derive(Debug, Clone, Copy, PartialEq, Eq, Structural)]
pub struct JobDefinitionId(Uuid);

impl View for JobDefinitionId {
    type V = Uuid;

    closed spec fn view(&self) -> Uuid {
        self.0
    }
}

impl JobDefinitionId {
    /// Mints an identity that chance keeps apart from every other. It is a random identifier: the
    /// bits that mark it as one are known, and nothing says that two calls differ in the rest.
    pub fn new() -> (id: Self)
        ensures
            is_random_id(id@),
    {
        JobDefinitionId(new_id())
    }
}

/// Number of most recent iterations of a job kept in storage.
///
/// Sized so an operator can still inspect the recent history of a job while the tail of a
/// long-running job does not grow without bound.
pub const DEFAULT_ITERATION_RETENTION: u64 = 100;

/// Smallest accepted number of iterations to keep.
///
/// A retention window has to stay wider than the gap a worker can lag behind the current iteration.
pub const MIN_ITERATION_RETENTION: u64 = 5;

/// Job definition with initial tasks and executors.
#[derive(Debug)]
pub struct JobDefinition {
    code: JobCode,
    initial_tasks: Vec<TaskDefinition>,
    task_executors: TaskExecutors,
    max_iterations: Option<u64>,
    iteration_interval: Option<Duration>,
    task_limits: TaskLimits,
    iteration_retention: u64,
}

/// A [`JobDefinition`] as contracts speak of it. The interval is in nanoseconds.
pub struct JobDefinitionView {
    /// Code identifying the job.
    pub code: Seq<char>,
    /// Task definitions every iteration starts with.
    pub initial_tasks: Seq<TaskDefinitionView>,
    /// Executors by the code of the tasks they run.
    pub task_executors: Map<Seq<char>, ExecutorId>,
    /// Iteration cap, or `None` for an endlessly repeating job.
    pub max_iterations: Option<u64>,
    /// Minimum delay between the starts of consecutive iterations.
    pub iteration_interval: Option<int>,
    /// Payload size caps applied to the job's tasks.
    pub task_limits: TaskLimits,
    /// Number of most recent iterations kept in storage.
    pub iteration_retention: u64,
}

/// Task definitions as contracts speak of them.
pub open spec fn task_views(tasks: Seq<TaskDefinition>) -> Seq<TaskDefinitionView> {
    tasks.map_values(|task: TaskDefinition| task@)
}

impl View for JobDefinition {
    type V = JobDefinitionView;

    closed spec fn view(&self) -> JobDefinitionView {
        JobDefinitionView {
            code: self.code@,
            initial_tasks: task_views(self.initial_tasks@),
            task_executors: self.task_executors@,
            max_iterations: self.max_iterations,
            iteration_interval: length(self.iteration_interval),
            task_limits: self.task_limits,
            iteration_retention: self.iteration_retention,
        }
    }
}

/// Initial tasks with the executors that run them, as contracts speak of them.
pub open spec fn described_tasks(tasks: Seq<(TaskDefinition, ExecutorId)>) -> Seq<
    (TaskDefinitionView, ExecutorId),
> {
    tasks.map_values(|task: (TaskDefinition, ExecutorId)| (task.0@, task.1))
}

/// Executors of runtime tasks, as contracts speak of them.
pub open spec fn described_executors(executors: Seq<(TaskCode, ExecutorId)>) -> Seq<
    (Seq<char>, ExecutorId),
> {
    executors.map_values(|executor: (TaskCode, ExecutorId)| (executor.0@, executor.1))
}

/// Declared dependencies, as contracts speak of them.
pub open spec fn described_dependencies(declared: Seq<(TaskRef, Vec<TaskRef>)>) -> Seq<
    (TaskRef, Seq<TaskRef>),
> {
    declared.map_values(|declaration: (TaskRef, Vec<TaskRef>)| (declaration.0, declaration.1@))
}

/// What a job says of an initial task its limits refuse.
pub open spec fn rejected_task_text(job: Seq<char>, position: int, reason: Seq<char>) -> Seq<char> {
    "job '"@ + job + "' initial task "@ + decimal(position) + ": "@ + reason
}

/// Checks the initial tasks in order and binds their executors: the bindings, or what the first
/// refused one is told.
pub open spec fn bind_initial(
    job: Seq<char>,
    tasks: Seq<(TaskDefinitionView, ExecutorId)>,
    limits: TaskLimits,
) -> Result<Map<Seq<char>, ExecutorId>, Seq<char>>
    decreases tasks.len(),
{
    if tasks.len() == 0 {
        Ok(Map::empty())
    } else {
        match bind_initial(job, tasks.drop_last(), limits) {
            Err(message) => Err(message),
            Ok(executors) => match tasks.last().0.rejection(limits) {
                Some(reason) => Err(rejected_task_text(job, tasks.len() - 1, reason)),
                None => bind(executors, job, tasks.last().0.code, tasks.last().1),
            },
        }
    }
}

/// Binds the executors of runtime tasks in order, on top of those bound already.
pub open spec fn bind_runtime(
    executors: Map<Seq<char>, ExecutorId>,
    job: Seq<char>,
    runtime: Seq<(Seq<char>, ExecutorId)>,
) -> Result<Map<Seq<char>, ExecutorId>, Seq<char>>
    decreases runtime.len(),
{
    if runtime.len() == 0 {
        Ok(executors)
    } else {
        match bind_runtime(executors, job, runtime.drop_last()) {
            Err(message) => Err(message),
            Ok(executors) => bind(executors, job, runtime.last().0, runtime.last().1),
        }
    }
}

/// Why `reference` names none of the `count` initial tasks of the description `id`, or `None` where
/// it names one.
pub open spec fn position_refusal(
    id: JobDefinitionId,
    job: Seq<char>,
    reference: TaskRef,
    count: int,
) -> Option<Seq<char>> {
    match reference@ {
        TaskRefKind::Initial { job_definition, position } => if job_definition != id {
            Some("job '"@ + job + "' declares a dependency on a task outside its own job"@)
        } else if position >= count {
            Some(
                "job '"@ + job + "' declares a dependency on initial task position "@ + decimal(
                    position as int,
                ) + ", which it does not have"@,
            )
        } else {
            None
        },
        TaskRefKind::Created(task) => Some(
            "job '"@ + job + "' declares an initial task depending on task '"@ + uuid_text(task)
                + "' created at runtime"@,
        ),
    }
}

/// The position a reference to an initial task names.
pub open spec fn position_of(reference: TaskRef) -> usize {
    match reference@ {
        TaskRefKind::Initial { job_definition, position } => position,
        TaskRefKind::Created(_) => 0,
    }
}

/// Adds the declared dependencies, in order, to the lists the tasks carry: the lists, or what the
/// first declaration about no task of the description is told.
pub open spec fn merged_dependencies(
    id: JobDefinitionId,
    job: Seq<char>,
    own: Seq<Seq<TaskRef>>,
    declared: Seq<(TaskRef, Seq<TaskRef>)>,
) -> Result<Seq<Seq<TaskRef>>, Seq<char>>
    decreases declared.len(),
{
    if declared.len() == 0 {
        Ok(own)
    } else {
        match merged_dependencies(id, job, own, declared.drop_last()) {
            Err(message) => Err(message),
            Ok(lists) => {
                let (task, dependencies) = declared.last();
                match position_refusal(id, job, task, own.len() as int) {
                    Some(message) => Err(message),
                    None => {
                        let position = position_of(task) as int;
                        Ok(lists.update(position, lists[position] + dependencies))
                    },
                }
            },
        }
    }
}

/// The first reason a reference in `references` names no task of the description.
pub open spec fn first_refusal(
    id: JobDefinitionId,
    job: Seq<char>,
    references: Seq<TaskRef>,
    count: int,
) -> Option<Seq<char>>
    decreases references.len(),
{
    if references.len() == 0 {
        None
    } else {
        match first_refusal(id, job, references.drop_last(), count) {
            Some(message) => Some(message),
            None => position_refusal(id, job, references.last(), count),
        }
    }
}

/// The first reason a reference in one of `lists` names no task of the description.
pub open spec fn first_refusal_in(
    id: JobDefinitionId,
    job: Seq<char>,
    lists: Seq<Seq<TaskRef>>,
    count: int,
) -> Option<Seq<char>>
    decreases lists.len(),
{
    if lists.len() == 0 {
        None
    } else {
        match first_refusal_in(id, job, lists.drop_last(), count) {
            Some(message) => Some(message),
            None => first_refusal(id, job, lists.last(), count),
        }
    }
}

/// The positions a list of references names.
pub open spec fn positions_of(references: Seq<TaskRef>) -> Seq<usize> {
    references.map_values(|reference: TaskRef| position_of(reference))
}

/// The positions each task waits for.
pub open spec fn dependency_edges(lists: Seq<Seq<TaskRef>>) -> Seq<Seq<usize>> {
    lists.map_values(|references: Seq<TaskRef>| positions_of(references))
}

/// The dependency lists the definitions carry.
pub open spec fn own_dependencies(tasks: Seq<TaskDefinitionView>) -> Seq<Seq<TaskRef>> {
    tasks.map_values(|task: TaskDefinitionView| task.depends_on)
}

/// The definitions with their dependency lists replaced by `lists`.
pub open spec fn with_lists(tasks: Seq<TaskDefinitionView>, lists: Seq<Seq<TaskRef>>) -> Seq<
    TaskDefinitionView,
> {
    Seq::new(
        tasks.len(),
        |i: int| TaskDefinitionView { depends_on: lists[i], ..tasks[i] },
    )
}

/// Why the first of `tasks` that tolerates unreachable dependencies while waiting for none is refused,
/// or `None` where there is no such task.
pub open spec fn idle_tolerance_refusal(job: Seq<char>, tasks: Seq<TaskDefinitionView>) -> Option<
    Seq<char>,
>
    decreases tasks.len(),
{
    if tasks.len() == 0 {
        None
    } else {
        match idle_tolerance_refusal(job, tasks.drop_last()) {
            Some(message) => Some(message),
            None => if tasks.last().tolerates_nothing() {
                Some(
                    "job '"@ + job + "' initial task "@ + decimal(tasks.len() - 1) + ": "@
                        + idle_tolerance_text(),
                )
            } else {
                None
            },
        }
    }
}

/// The definitions of initial tasks, without the executors that run them.
pub open spec fn definitions_of(tasks: Seq<(TaskDefinitionView, ExecutorId)>) -> Seq<
    TaskDefinitionView,
> {
    tasks.map_values(|task: (TaskDefinitionView, ExecutorId)| task.0)
}

/// What a description amounts to before its dependencies are searched for cycles: the executors and
/// the dependency lists, or what the description is refused with.
pub open spec fn description(
    id: JobDefinitionId,
    job: Seq<char>,
    tasks: Seq<(TaskDefinitionView, ExecutorId)>,
    runtime: Seq<(Seq<char>, ExecutorId)>,
    declared: Seq<(TaskRef, Seq<TaskRef>)>,
    limits: TaskLimits,
) -> Result<(Map<Seq<char>, ExecutorId>, Seq<Seq<TaskRef>>), Seq<char>> {
    if tasks.len() == 0 {
        Err("job '"@ + job + "' has no initial task: declare at least one with add_task()"@)
    } else {
        match bind_initial(job, tasks, limits) {
            Err(message) => Err(message),
            Ok(initial) => match bind_runtime(initial, job, runtime) {
                Err(message) => Err(message),
                Ok(executors) => match merged_dependencies(
                    id,
                    job,
                    own_dependencies(definitions_of(tasks)),
                    declared,
                ) {
                    Err(message) => Err(message),
                    Ok(lists) => match idle_tolerance_refusal(
                        job,
                        with_lists(definitions_of(tasks), lists),
                    ) {
                        Some(message) => Err(message),
                        None => match first_refusal_in(id, job, lists, tasks.len() as int) {
                            Some(message) => Err(message),
                            None => Ok((executors, lists)),
                        },
                    },
                },
            },
        }
    }
}

/// What a job says whose dependencies lead back to the initial task at `position`.
pub open spec fn cycle_text(job: Seq<char>, position: int) -> Seq<char> {
    "job '"@ + job + "' has a dependency cycle through initial task "@ + decimal(position)
}

/// Whether `message` is what `job` says of a cycle that `edges` really have.
pub open spec fn reports_cycle(
    job: Seq<char>,
    edges: Seq<Seq<usize>>,
    message: Seq<char>,
) -> bool {
    exists|position: int|
        #[trigger] on_cycle(edges, position) && 0 <= position < edges.len() && message
            == cycle_text(job, position)
}

/// Whether no task waits for itself.
pub open spec fn is_acyclic(edges: Seq<Seq<usize>>) -> bool {
    forall|position: int| !#[trigger] on_cycle(edges, position)
}

/// A task that is refused keeps every longer list of tasks refused in the same words.
proof fn lemma_idle_tolerance(job: Seq<char>, tasks: Seq<TaskDefinitionView>, count: int)
    requires
        0 <= count <= tasks.len(),
    ensures
        idle_tolerance_refusal(job, tasks.take(count)) is Some ==> idle_tolerance_refusal(job, tasks)
            == idle_tolerance_refusal(job, tasks.take(count)),
    decreases tasks.len() - count,
{
    if count < tasks.len() {
        lemma_idle_tolerance(job, tasks, count + 1);
        assert(tasks.take(count + 1).drop_last() =~= tasks.take(count));
    } else {
        assert(tasks.take(count) =~= tasks);
    }
}

/// The lists keep one entry per task however many declarations are added.
pub(crate) proof fn lemma_merged_length(
    id: JobDefinitionId,
    job: Seq<char>,
    own: Seq<Seq<TaskRef>>,
    declared: Seq<(TaskRef, Seq<TaskRef>)>,
)
    ensures
        merged_dependencies(id, job, own, declared) matches Ok(lists) ==> lists.len() == own.len(),
    decreases declared.len(),
{
    if declared.len() > 0 {
        lemma_merged_length(id, job, own, declared.drop_last());
    }
}

impl JobDefinition {
    /// Whether the parts of the definition fit together as contracts assume.
    pub closed spec fn well_formed(&self) -> bool {
        self.task_executors.well_formed()
    }

    /// Position `task` names among the `initial_task_count` initial tasks of this description.
    ///
    /// # Errors
    ///
    /// Returns [`Error::Other`] if the reference was handed out by another job description or names
    /// a task created at runtime - neither of which names a task of this description - or if it
    /// names a position the description does not have.
    pub fn resolve_initial_position(
        id: JobDefinitionId,
        job_code: &JobCode,
        task: TaskRef,
        initial_task_count: usize,
    ) -> (resolved: Result<usize, Error>)
        ensures
            match position_refusal(id, job_code@, task, initial_task_count as int) {
                None => resolved == Ok::<usize, Error>(position_of(task)) && position_of(task)
                    < initial_task_count,
                Some(message) => resolved matches Err(e) && e@ == ErrorView::Other(message),
            },
    {
        match task.kind() {
            TaskRefKind::Initial { job_definition, position } => {
                if job_definition != id {
                    let mut message = "job '".to_owned();
                    message.append(job_code.as_str());
                    message.append("' declares a dependency on a task outside its own job");
                    return Err(Error::Other(message));
                }
                if position >= initial_task_count {
                    let mut message = "job '".to_owned();
                    let place = unsigned_text(position as u128);
                    message.append(job_code.as_str());
                    message.append("' declares a dependency on initial task position ");
                    message.append(place.as_str());
                    message.append(", which it does not have");
                    return Err(Error::Other(message));
                }
                Ok(position)
            },
            // Reported apart from a reference to another description: a task created at runtime
            // belongs to no description at all, so pointing at the job layout would send the reader
            // looking for an error that is not there.
            TaskRefKind::Created(task_id) => {
                let mut message = "job '".to_owned();
                let id = id_text(task_id);
                message.append(job_code.as_str());
                message.append("' declares an initial task depending on task '");
                message.append(id.as_str());
                message.append("' created at runtime");
                Err(Error::Other(message))
            },
        }
    }

    /// Adds every declaration in `declared_dependencies` to the task it names.
    ///
    /// The declarations add to what a definition already carries rather than replacing it, so a task
    /// described through both channels waits for the union of the two lists.
    ///
    /// # Errors
    ///
    /// Returns [`Error::Other`] if a declaration names a task this description does not have; the
    /// dependencies themselves are checked once they are merged in.
    pub fn merge_declared_dependencies(
        id: JobDefinitionId,
        job_code: &JobCode,
        initial_tasks: Vec<TaskDefinition>,
        declared_dependencies: Vec<(TaskRef, Vec<TaskRef>)>,
    ) -> (merged: Result<Vec<TaskDefinition>, Error>)
        ensures
            match merged_dependencies(
                id,
                job_code@,
                own_dependencies(task_views(initial_tasks@)),
                described_dependencies(declared_dependencies@),
            ) {
                Ok(lists) => merged matches Ok(tasks) && task_views(tasks@) == with_lists(
                    task_views(initial_tasks@),
                    lists,
                ),
                Err(message) => merged matches Err(e) && e@ == ErrorView::Other(message),
            },
    {
        let ghost given = task_views(initial_tasks@);
        let ghost own = own_dependencies(given);
        let ghost declared = described_dependencies(declared_dependencies@);
        let ghost job = job_code@;
        let count: usize = initial_tasks.len();
        let mut tasks = initial_tasks;
        let mut i: usize = 0;
        assert(task_views(tasks@) =~= with_lists(given, own));
        assert(declared.take(0) =~= Seq::empty());
        while i < declared_dependencies.len()
            invariant
                i <= declared_dependencies@.len(),
                declared == described_dependencies(declared_dependencies@),
                given == task_views(initial_tasks@),
                own == own_dependencies(given),
                given.len() == count,
                job == job_code@,
                tasks@.len() == count,
                merged_dependencies(id, job, own, declared.take(i as int)) matches Ok(lists)
                    && lists.len() == count && task_views(tasks@) == with_lists(given, lists),
            decreases declared_dependencies@.len() - i,
        {
            let ghost lists = merged_dependencies(id, job, own, declared.take(i as int))->Ok_0;
            proof {
                assert(declared.take(i + 1).drop_last() =~= declared.take(i as int));
                assert(declared.take(i + 1).last() == declared[i as int]);
                lemma_refused_merge(id, job, own, declared, i + 1);
            }
            let position: usize = match Self::resolve_initial_position(
                id,
                job_code,
                declared_dependencies[i].0,
                count,
            ) {
                Ok(position) => position,
                Err(e) => {
                    return Err(e);
                },
            };
            let mut dependencies: Vec<TaskRef> = tasks[position].depends_on().clone();
            let ghost before = tasks@;
            assert(dependencies@ =~= lists[position as int]) by {
                assert(task_views(tasks@)[position as int].depends_on == lists[position as int]);
            }
            let mut added: usize = 0;
            while added < declared_dependencies[i as usize].1.len()
                invariant
                    i < declared_dependencies@.len(),
                    added <= declared_dependencies@[i as int].1@.len(),
                    dependencies@ == lists[position as int] + declared_dependencies@[i as int].1@.take(
                        added as int,
                    ),
                decreases declared_dependencies@[i as int].1@.len() - added,
            {
                let ghost list = declared_dependencies@[i as int].1@;
                dependencies.push(declared_dependencies[i].1[added]);
                assert(list.take(added + 1) =~= list.take(added as int).push(list[added as int]));
                added = added + 1;
            }
            let ghost list = declared_dependencies@[i as int].1@;
            assert(list.take(list.len() as int) =~= list);
            let task = tasks[position].clone().with_dependencies(dependencies);
            tasks.set(position, task);
            let ghost next = lists.update(position as int, lists[position as int] + list);
            assert(task_views(tasks@) =~= with_lists(given, next)) by {
                assert forall|k: int| 0 <= k < count implies task_views(tasks@)[k] == with_lists(
                    given,
                    next,
                )[k] by {
                    assert(task_views(before)[k] == with_lists(given, lists)[k]);
                }
            }
            i = i + 1;
        }
        assert(declared.take(i as int) =~= declared);
        Ok(tasks)
    }
}

/// A prefix of declarations that is refused refuses them all, and in the same words.
proof fn lemma_refused_merge(
    id: JobDefinitionId,
    job: Seq<char>,
    own: Seq<Seq<TaskRef>>,
    declared: Seq<(TaskRef, Seq<TaskRef>)>,
    n: int,
)
    requires
        0 <= n <= declared.len(),
    ensures
        merged_dependencies(id, job, own, declared.take(n)) matches Err(message)
            ==> merged_dependencies(id, job, own, declared) == Err::<
            Seq<Seq<TaskRef>>,
            Seq<char>,
        >(message),
    decreases declared.len() - n,
{
    if n < declared.len() {
        assert(declared.take(n + 1).drop_last() =~= declared.take(n));
        lemma_refused_merge(id, job, own, declared, n + 1);
    } else {
        assert(declared.take(n) =~= declared);
    }
}

/// A prefix of references that holds a refused one refuses them all, and in the same words.
proof fn lemma_refused_reference(
    id: JobDefinitionId,
    job: Seq<char>,
    references: Seq<TaskRef>,
    count: int,
    n: int,
)
    requires
        0 <= n <= references.len(),
    ensures
        first_refusal(id, job, references.take(n), count) matches Some(message) ==> first_refusal(
            id,
            job,
            references,
            count,
        ) == Some(message),
    decreases references.len() - n,
{
    if n < references.len() {
        assert(references.take(n + 1).drop_last() =~= references.take(n));
        lemma_refused_reference(id, job, references, count, n + 1);
    } else {
        assert(references.take(n) =~= references);
    }
}

/// A prefix of lists that holds a refused reference refuses them all, and in the same words.
proof fn lemma_refused_list(
    id: JobDefinitionId,
    job: Seq<char>,
    lists: Seq<Seq<TaskRef>>,
    count: int,
    n: int,
)
    requires
        0 <= n <= lists.len(),
    ensures
        first_refusal_in(id, job, lists.take(n), count) matches Some(message) ==> first_refusal_in(
            id,
            job,
            lists,
            count,
        ) == Some(message),
    decreases lists.len() - n,
{
    if n < lists.len() {
        assert(lists.take(n + 1).drop_last() =~= lists.take(n));
        lemma_refused_list(id, job, lists, count, n + 1);
    } else {
        assert(lists.take(n) =~= lists);
    }
}

/// A prefix of initial tasks that is refused refuses them all, and in the same words.
proof fn lemma_refused_task(
    job: Seq<char>,
    tasks: Seq<(TaskDefinitionView, ExecutorId)>,
    limits: TaskLimits,
    n: int,
)
    requires
        0 <= n <= tasks.len(),
    ensures
        bind_initial(job, tasks.take(n), limits) matches Err(message) ==> bind_initial(
            job,
            tasks,
            limits,
        ) == Err::<Map<Seq<char>, ExecutorId>, Seq<char>>(message),
    decreases tasks.len() - n,
{
    if n < tasks.len() {
        assert(tasks.take(n + 1).drop_last() =~= tasks.take(n));
        lemma_refused_task(job, tasks, limits, n + 1);
    } else {
        assert(tasks.take(n) =~= tasks);
    }
}

/// A prefix of runtime executors that is refused refuses them all, and in the same words.
proof fn lemma_refused_executor(
    executors: Map<Seq<char>, ExecutorId>,
    job: Seq<char>,
    runtime: Seq<(Seq<char>, ExecutorId)>,
    n: int,
)
    requires
        0 <= n <= runtime.len(),
    ensures
        bind_runtime(executors, job, runtime.take(n)) matches Err(message) ==> bind_runtime(
            executors,
            job,
            runtime,
        ) == Err::<Map<Seq<char>, ExecutorId>, Seq<char>>(message),
    decreases runtime.len() - n,
{
    if n < runtime.len() {
        assert(runtime.take(n + 1).drop_last() =~= runtime.take(n));
        lemma_refused_executor(executors, job, runtime, n + 1);
    } else {
        assert(runtime.take(n) =~= runtime);
    }
}

impl JobDefinition {
    /// The positions `references` name.
    fn resolve_positions(
        id: JobDefinitionId,
        job_code: &JobCode,
        references: &Vec<TaskRef>,
        count: usize,
    ) -> (resolved: Result<Vec<usize>, Error>)
        ensures
            match first_refusal(id, job_code@, references@, count as int) {
                None => resolved matches Ok(positions) && positions@ == positions_of(references@)
                    && forall|k: int|
                    0 <= k < positions@.len() ==> #[trigger] positions@[k] < count,
                Some(message) => resolved matches Err(e) && e@ == ErrorView::Other(message),
            },
    {
        let ghost job = job_code@;
        let mut positions: Vec<usize> = Vec::new();
        let mut k: usize = 0;
        assert(references@.take(0) =~= Seq::empty());
        while k < references.len()
            invariant
                k <= references@.len(),
                job == job_code@,
                first_refusal(id, job, references@.take(k as int), count as int) is None,
                positions@ =~= positions_of(references@.take(k as int)),
                forall|j: int| 0 <= j < positions@.len() ==> #[trigger] positions@[j] < count,
            decreases references@.len() - k,
        {
            proof {
                assert(references@.take(k + 1).drop_last() =~= references@.take(k as int));
                assert(references@.take(k + 1).last() == references@[k as int]);
                lemma_refused_reference(id, job, references@, count as int, k + 1);
            }
            match Self::resolve_initial_position(id, job_code, references[k], count) {
                Ok(position) => positions.push(position),
                Err(e) => {
                    return Err(e);
                },
            }
            k = k + 1;
        }
        assert(references@.take(k as int) =~= references@);
        Ok(positions)
    }

    /// Checks the dependency graph a job description declares.
    ///
    /// # Errors
    ///
    /// Returns [`Error::Other`] if an initial task depends on a task of another description or on one
    /// created at runtime, if a positional reference names a position the description does not have,
    /// or if the references form a cycle - any of which would leave a task waiting for something that
    /// never completes.
    pub fn validate_initial_task_dependencies(
        id: JobDefinitionId,
        job_code: &JobCode,
        initial_tasks: &Vec<TaskDefinition>,
    ) -> (valid: Result<(), Error>)
        ensures
            ({
                let lists = own_dependencies(task_views(initial_tasks@));
                match first_refusal_in(id, job_code@, lists, initial_tasks@.len() as int) {
                    Some(message) => valid matches Err(e) && e@ == ErrorView::Other(message),
                    None => match valid {
                        Ok(_) => is_acyclic(dependency_edges(lists)),
                        Err(e) => e@ matches ErrorView::Other(message) && reports_cycle(
                            job_code@,
                            dependency_edges(lists),
                            message,
                        ),
                    },
                }
            }),
    {
        let ghost lists = own_dependencies(task_views(initial_tasks@));
        let ghost job = job_code@;
        let count: usize = initial_tasks.len();
        let mut positions_by_task: Vec<Vec<usize>> = Vec::new();
        let mut i: usize = 0;
        assert(lists.take(0) =~= Seq::empty());
        while i < count
            invariant
                i <= count,
                count == initial_tasks@.len(),
                job == job_code@,
                lists == own_dependencies(task_views(initial_tasks@)),
                first_refusal_in(id, job, lists.take(i as int), count as int) is None,
                edges_of(positions_by_task@) =~= dependency_edges(lists.take(i as int)),
                positions_by_task@.len() == i,
                forall|from: int, k: int|
                    0 <= from < i && 0 <= k < positions_by_task@[from]@.len()
                        ==> #[trigger] positions_by_task@[from]@[k] < count,
            decreases count - i,
        {
            proof {
                assert(lists.take(i + 1).drop_last() =~= lists.take(i as int));
                assert(lists.take(i + 1).last() == lists[i as int]);
                lemma_refused_list(id, job, lists, count as int, i + 1);
            }
            match Self::resolve_positions(id, job_code, initial_tasks[i].depends_on(), count) {
                Ok(positions) => {
                    let ghost before = positions_by_task@;
                    positions_by_task.push(positions);
                    assert forall|from: int| 0 <= from < i + 1 implies edges_of(
                        positions_by_task@,
                    )[from] == dependency_edges(lists.take(i + 1))[from] by {
                        if from < i {
                            assert(edges_of(before)[from] == dependency_edges(
                                lists.take(i as int),
                            )[from]);
                        }
                    }
                },
                Err(e) => {
                    return Err(e);
                },
            }
            i = i + 1;
        }
        assert(lists.take(i as int) =~= lists);
        let ghost edges = dependency_edges(lists);
        assert(in_range(edges_of(positions_by_task@))) by {
            assert forall|from: int, k: int|
                0 <= from < edges_of(positions_by_task@).len() && 0 <= k < edges_of(
                    positions_by_task@,
                )[from].len() implies #[trigger] edges_of(positions_by_task@)[from][k] < edges_of(
                positions_by_task@,
            ).len() by {
                assert(edges_of(positions_by_task@)[from][k] == positions_by_task@[from]@[k]);
            }
        }
        match find_dependency_cycle(&positions_by_task) {
            Some(position) => {
                let mut message = "job '".to_owned();
                let place = unsigned_text(position as u128);
                message.append(job_code.as_str());
                message.append("' has a dependency cycle through initial task ");
                message.append(place.as_str());
                assert(on_cycle(edges, position as int));
                assert(message@ == cycle_text(job, position as int));
                Err(Error::Other(message))
            },
            None => Ok(()),
        }
    }

    /// Checks that no initial task tolerates unreachable dependencies while waiting for none.
    ///
    /// # Errors
    ///
    /// Returns [`Error::Other`] about the first task that does.
    fn check_tolerances(job_code: &JobCode, initial_tasks: &Vec<TaskDefinition>) -> (valid: Result<
        (),
        Error,
    >)
        ensures
            match idle_tolerance_refusal(job_code@, task_views(initial_tasks@)) {
                Some(message) => valid matches Err(e) && e@ == ErrorView::Other(message),
                None => valid is Ok,
            },
    {
        let ghost job = job_code@;
        let ghost tasks = task_views(initial_tasks@);
        let mut position: usize = 0;
        assert(tasks.take(0) =~= Seq::empty());
        while position < initial_tasks.len()
            invariant
                position <= initial_tasks@.len(),
                job == job_code@,
                tasks == task_views(initial_tasks@),
                idle_tolerance_refusal(job, tasks.take(position as int)) is None,
            decreases initial_tasks@.len() - position,
        {
            proof {
                assert(tasks.take(position + 1).drop_last() =~= tasks.take(position as int));
                assert(tasks.take(position + 1).last() == tasks[position as int]);
                lemma_idle_tolerance(job, tasks, position + 1);
            }
            if !initial_tasks[position].is_declares_tolerance_valid() {
                let mut message = "job '".to_owned();
                let place = unsigned_text(position as u128);
                message.append(job_code.as_str());
                message.append("' initial task ");
                message.append(place.as_str());
                message.append(": ");
                message.append("task tolerates unreachable dependencies but depends on none");
                return Err(Error::Other(message));
            }
            position = position + 1;
        }
        assert(tasks.take(position as int) =~= tasks);
        Ok(())
    }

    /// Builds a validated definition with unlimited iterations and no iteration interval; use the
    /// `with_*` builders to override those.
    ///
    /// This is the only place an initial task definition is checked, so a definition that cannot
    /// produce a legal task is rejected before any worker runs. An initial task is described together
    /// with the executor that runs it; `runtime_executors` covers the codes a task created at runtime
    /// may use, and a runtime task whose code is missing there fails at execution time, not here.
    ///
    /// # Errors
    ///
    /// Returns [`Error::Other`] if there is no initial task, if one does not pass `task_limits`, if
    /// one code carries two different executors, if a task tolerates unreachable dependencies while
    /// waiting for none, if a dependency names no initial task of this description, or if the
    /// dependencies form a cycle.
    pub fn new(
        id: JobDefinitionId,
        code: JobCode,
        initial_tasks: Vec<(TaskDefinition, ExecutorId)>,
        runtime_executors: Vec<(TaskCode, ExecutorId)>,
        declared_dependencies: Vec<(TaskRef, Vec<TaskRef>)>,
        task_limits: TaskLimits,
    ) -> (built: Result<Self, Error>)
        ensures
            ({
                let tasks = described_tasks(initial_tasks@);
                match description(
                    id,
                    code@,
                    tasks,
                    described_executors(runtime_executors@),
                    described_dependencies(declared_dependencies@),
                    task_limits,
                ) {
                    Err(message) => built matches Err(e) && e@ == ErrorView::Other(message),
                    Ok((executors, lists)) => match built {
                        Ok(definition) => {
                            &&& is_acyclic(dependency_edges(lists))
                            &&& definition.well_formed()
                            &&& definition@ == (JobDefinitionView {
                                code: code@,
                                initial_tasks: with_lists(definitions_of(tasks), lists),
                                task_executors: executors,
                                max_iterations: None,
                                iteration_interval: None,
                                task_limits,
                                iteration_retention: DEFAULT_ITERATION_RETENTION,
                            })
                        },
                        Err(e) => e@ matches ErrorView::Other(message) && reports_cycle(
                            code@,
                            dependency_edges(lists),
                            message,
                        ),
                    },
                }
            }),
    {
        let ghost job = code@;
        let ghost tasks = described_tasks(initial_tasks@);
        let ghost runtime = described_executors(runtime_executors@);
        if initial_tasks.len() == 0 {
            let mut message = "job '".to_owned();
            message.append(code.as_str());
            message.append("' has no initial task: declare at least one with add_task()");
            return Err(Error::Other(message));
        }
        let mut task_executors = TaskExecutors::new();
        let mut initial_definitions: Vec<TaskDefinition> = Vec::new();
        let count: usize = initial_tasks.len();
        let mut position: usize = 0;
        assert(tasks.take(0) =~= Seq::empty());
        for item in it: initial_tasks.into_iter()
            invariant
                it.seq() == initial_tasks@,
                position == it.index(),
                count == initial_tasks@.len(),
                job == code@,
                tasks == described_tasks(initial_tasks@),
                task_executors.well_formed(),
                bind_initial(job, tasks.take(position as int), task_limits) == Ok::<
                    Map<Seq<char>, ExecutorId>,
                    Seq<char>,
                >(task_executors@),
                task_views(initial_definitions@) =~= definitions_of(tasks.take(position as int)),
        {
            proof {
                assert(tasks.take(position + 1).drop_last() =~= tasks.take(position as int));
                assert(tasks.take(position + 1).last() == tasks[position as int]);
                lemma_refused_task(job, tasks, task_limits, position + 1);
            }
            let (definition, executor) = item;
            match definition.validate(task_limits) {
                Ok(()) => {},
                Err(e) => {
                    let mut message = "job '".to_owned();
                    let place = unsigned_text(position as u128);
                    let reason = e.message();
                    message.append(code.as_str());
                    message.append("' initial task ");
                    message.append(place.as_str());
                    message.append(": ");
                    message.append(reason.as_str());
                    return Err(Error::Other(message));
                },
            }
            match task_executors.register(&code, definition.code().clone(), executor) {
                Ok(()) => {},
                Err(e) => {
                    return Err(e);
                },
            }
            let ghost before = initial_definitions@;
            initial_definitions.push(definition);
            proof {
                assert(task_views(initial_definitions@) =~= task_views(before).push(definition@));
                assert(definitions_of(tasks.take(position + 1)) =~= definitions_of(
                    tasks.take(position as int),
                ).push(tasks[position as int].0));
            }
            position = position + 1;
        }
        assert(tasks.take(position as int) =~= tasks);
        let ghost initial = task_executors@;
        let ghost mut bound: int = 0;
        assert(runtime.take(0) =~= Seq::empty());
        for item in it: runtime_executors.into_iter()
            invariant
                it.seq() == runtime_executors@,
                bound == it.index(),
                job == code@,
                tasks == described_tasks(initial_tasks@),
                tasks.len() > 0,
                bind_initial(job, tasks, task_limits) == Ok::<
                    Map<Seq<char>, ExecutorId>,
                    Seq<char>,
                >(initial),
                runtime == described_executors(runtime_executors@),
                task_executors.well_formed(),
                bind_runtime(initial, job, runtime.take(bound)) == Ok::<
                    Map<Seq<char>, ExecutorId>,
                    Seq<char>,
                >(task_executors@),
        {
            proof {
                assert(runtime.take(bound + 1).drop_last() =~= runtime.take(bound));
                assert(runtime.take(bound + 1).last() == runtime[bound]);
                lemma_refused_executor(initial, job, runtime, bound + 1);
            }
            let (task_code, executor) = item;
            match task_executors.register(&code, task_code, executor) {
                Ok(()) => {},
                Err(e) => {
                    return Err(e);
                },
            }
            proof {
                bound = bound + 1;
            }
        }
        assert(runtime.take(bound) =~= runtime);
        let merged = match Self::merge_declared_dependencies(
            id,
            &code,
            initial_definitions,
            declared_dependencies,
        ) {
            Ok(merged) => merged,
            Err(e) => {
                return Err(e);
            },
        };
        proof {
            lemma_merged_length(
                id,
                job,
                own_dependencies(definitions_of(tasks)),
                described_dependencies(declared_dependencies@),
            );
            let lists = merged_dependencies(
                id,
                job,
                own_dependencies(definitions_of(tasks)),
                described_dependencies(declared_dependencies@),
            )->Ok_0;
            assert(own_dependencies(with_lists(definitions_of(tasks), lists)) =~= lists);
        }
        match Self::check_tolerances(&code, &merged) {
            Ok(()) => {},
            Err(e) => {
                return Err(e);
            },
        }
        match Self::validate_initial_task_dependencies(id, &code, &merged) {
            Ok(()) => {},
            Err(e) => {
                return Err(e);
            },
        }
        Ok(
            JobDefinition {
                code,
                initial_tasks: merged,
                task_executors,
                max_iterations: None,
                iteration_interval: None,
                task_limits,
                iteration_retention: DEFAULT_ITERATION_RETENTION,
            },
        )
    }
}

/// The newest iteration that may be deleted while the current one is `iter_num`, keeping `retention`
/// iterations: the one that many behind the current one, where there is such an iteration.
pub open spec fn retention_boundary(iter_num: u64, retention: u64) -> Option<u64> {
    if iter_num > retention {
        Some((iter_num - retention) as u64)
    } else {
        None
    }
}

impl JobDefinition {
    /// Code identifying this job, unique within its registry and used as the storage prefix of the
    /// job's persisted state.
    pub fn code(&self) -> (code: &JobCode)
        ensures
            code@ == self@.code,
    {
        &self.code
    }

    /// Task definitions a job iteration starts with.
    ///
    /// These are re-instantiated as fresh tasks at the start of *every* iteration, not only the first
    /// one, so they must describe work that is safe to repeat.
    pub fn initial_tasks(&self) -> (tasks: &Vec<TaskDefinition>)
        ensures
            task_views(tasks@) == self@.initial_tasks,
    {
        &self.initial_tasks
    }

    /// Executors available to this job, keyed by task code.
    ///
    /// Covers both initial and dynamically added tasks; a task whose code is absent here can be
    /// created but never executed.
    pub fn task_executors(&self) -> (executors: &TaskExecutors)
        requires
            self.well_formed(),
        ensures
            executors.well_formed(),
            executors@ == self@.task_executors,
    {
        &self.task_executors
    }

    /// Iteration cap, or `None` for an endlessly repeating job.
    pub fn max_iterations(&self) -> (max_iterations: Option<u64>)
        ensures
            max_iterations == self@.max_iterations,
    {
        self.max_iterations
    }

    /// Minimum delay between the start of consecutive iterations, or `None` to start the next
    /// iteration as soon as the previous one finishes.
    pub fn iteration_interval(&self) -> (interval: Option<Duration>)
        ensures
            length(interval) == self@.iteration_interval,
    {
        self.iteration_interval
    }

    /// Payload size caps applied to the job's tasks.
    pub fn task_limits(&self) -> (limits: TaskLimits)
        ensures
            limits == self@.task_limits,
    {
        self.task_limits
    }

    /// Newest iteration number of this job that may be deleted while its current iteration is
    /// `iter_num`, or `None` when the retention window still covers the whole history.
    ///
    /// `iter_num` is the domain iteration number - 1, 2, 3 and so on - not a storage key.
    pub fn calculate_retention_boundary(&self, iter_num: u64) -> (boundary: Option<u64>)
        ensures
            boundary == retention_boundary(iter_num, self@.iteration_retention),
    {
        // Iteration numbers start at 1, so a boundary of zero names nothing deletable.
        if iter_num > self.iteration_retention {
            Some(iter_num - self.iteration_retention)
        } else {
            None
        }
    }

    /// Caps the number of iterations; once reached, the job is no longer polled.
    ///
    /// The count includes the first iteration, so `1` means the job runs exactly once. The limit is
    /// compared against the persisted iteration number, so lowering it can retire a job that is
    /// already past the new bound.
    ///
    /// # Errors
    ///
    /// Returns [`Error::Other`] if `max_iterations` is zero.
    pub fn with_max_iterations(self, max_iterations: u64) -> (capped: Result<Self, Error>)
        ensures
            capped is Ok <==> max_iterations > 0,
            capped matches Ok(definition) ==> definition@ == (JobDefinitionView {
                max_iterations: Some(max_iterations),
                ..self@
            }) && definition.well_formed() == self.well_formed(),
            capped matches Err(e) ==> e@ == ErrorView::Other(
                "job max iterations must be positive"@,
            ),
    {
        if max_iterations == 0 {
            return Err(Error::Other("job max iterations must be positive".to_owned()));
        }
        Ok(JobDefinition { max_iterations: Some(max_iterations), ..self })
    }

    /// Keeps only the given number of most recent iterations of the job in storage; older ones are
    /// deleted in the background. Defaults to [`DEFAULT_ITERATION_RETENTION`].
    ///
    /// The floor is not 1, because deletion races with workers rather than excluding them: a worker
    /// that read the job's metadata before an iteration finished may still write its own iteration
    /// afterwards, and with a narrow window that write recreates an already-deleted iteration.
    ///
    /// # Errors
    ///
    /// Returns [`Error::Other`] if `iteration_retention` is below [`MIN_ITERATION_RETENTION`].
    pub fn with_iteration_retention(self, iteration_retention: u64) -> (kept: Result<Self, Error>)
        ensures
            kept is Ok <==> iteration_retention >= MIN_ITERATION_RETENTION,
            kept matches Ok(definition) ==> definition@ == (JobDefinitionView {
                iteration_retention,
                ..self@
            }) && definition.well_formed() == self.well_formed(),
            kept matches Err(e) ==> e@ == ErrorView::Other(
                "job iteration retention must be at least "@ + decimal(
                    MIN_ITERATION_RETENTION as int,
                ),
            ),
    {
        if iteration_retention < MIN_ITERATION_RETENTION {
            let mut message = "job iteration retention must be at least ".to_owned();
            let floor = unsigned_text(MIN_ITERATION_RETENTION as u128);
            message.append(floor.as_str());
            return Err(Error::Other(message));
        }
        Ok(JobDefinition { iteration_retention, ..self })
    }

    /// Requires the given delay to elapse from the *start* of an iteration before the next one may
    /// begin, so a long iteration does not extend the schedule.
    ///
    /// The anchor is the persisted start time, which survives process restarts. A moment set for the
    /// next start overrides this interval in both directions.
    ///
    /// # Errors
    ///
    /// Returns [`Error::Other`] if `iteration_interval` is zero, or so large that it does not fit the
    /// millisecond resolution the scheduler uses.
    pub fn with_iteration_interval(self, iteration_interval: Duration) -> (spaced: Result<
        Self,
        Error,
    >)
        ensures
            spaced is Ok <==> iteration_interval@ != 0 && is_delta(iteration_interval@),
            spaced matches Ok(definition) ==> definition@ == (JobDefinitionView {
                iteration_interval: Some(iteration_interval@),
                ..self@
            }) && definition.well_formed() == self.well_formed(),
            spaced matches Err(e) ==> e@ == ErrorView::Other(
                if iteration_interval@ == 0 {
                    "job iteration interval must be positive"@
                } else {
                    "job iteration interval is too large"@
                },
            ),
    {
        if iteration_interval.is_zero() {
            return Err(Error::Other("job iteration interval must be positive".to_owned()));
        }
        if TimeDelta::from_std(iteration_interval).is_none() {
            return Err(Error::Other("job iteration interval is too large".to_owned()));
        }
        Ok(JobDefinition { iteration_interval: Some(iteration_interval), ..self })
    }
}

impl Clone for JobDefinition {
    fn clone(&self) -> (copy: Self)
        ensures
            copy@ == self@,
            self.well_formed() ==> copy.well_formed(),
    {
        let mut initial_tasks: Vec<TaskDefinition> = Vec::new();
        let mut i: usize = 0;
        while i < self.initial_tasks.len()
            invariant
                i <= self.initial_tasks@.len(),
                initial_tasks@.len() == i,
                forall|j: int| 0 <= j < i ==> (#[trigger] initial_tasks@[j])@
                    == self.initial_tasks@[j]@,
            decreases self.initial_tasks@.len() - i,
        {
            initial_tasks.push(self.initial_tasks[i].clone());
            i = i + 1;
        }
        assert(task_views(initial_tasks@) =~= task_views(self.initial_tasks@));
        JobDefinition {
            code: self.code.clone(),
            initial_tasks,
            task_executors: self.task_executors.clone(),
            max_iterations: self.max_iterations,
            iteration_interval: self.iteration_interval,
            task_limits: self.task_limits,
            iteration_retention: self.iteration_retention,
        }
    }
}

} // verus!
