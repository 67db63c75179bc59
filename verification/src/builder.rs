//! Descriptions under construction: jobs, and the settings of the pool that runs them.

use vstd::prelude::*;

use crate::code::{JobCode, TaskCode};
use crate::definition::{
    definitions_of, dependency_edges, described_dependencies, described_executors, described_tasks,
    description, is_acyclic, reports_cycle, with_lists, JobDefinition, JobDefinitionId,
    JobDefinitionView, TaskLimits, DEFAULT_ITERATION_RETENTION, MIN_ITERATION_RETENTION,
};
use crate::error::{Error, ErrorView};
use crate::executors::ExecutorId;
use crate::poll::{default_settings, WorkerConfig, WorkerConfigView};
use crate::registry::{job_codes, job_views, registered, JobRegistry};
use crate::retrier::RetrierConfig;
use crate::task::{TaskDefinition, TaskDefinitionView, TaskRef, TaskRefKind};
use crate::text::decimal;
use crate::time::{is_delta, length, Duration};

verus! {

/// Describes one job: its schedule, its initial tasks, and every executor it may run.
///
/// Nothing is validated here; a mistake surfaces where the pool is built, so describing a job needs no
/// error handling.
#[derive(Debug)]
pub struct JobBuilder {
    id: JobDefinitionId,
    code: JobCode,
    iteration_interval: Option<Duration>,
    max_iterations: Option<u64>,
    iteration_retention: Option<u64>,
    task_limits: Option<TaskLimits>,
    initial_tasks: Vec<(TaskDefinition, ExecutorId)>,
    runtime_executors: Vec<(TaskCode, ExecutorId)>,
    // Declarations in the order they were made, not slots indexed by position: a reference from
    // another job has no slot, and a slot layout would drop such a declaration silently.
    dependencies: Vec<(TaskRef, Vec<TaskRef>)>,
}

/// A [`JobBuilder`] as contracts speak of it. The interval is in nanoseconds.
pub struct JobBuilderView {
    /// Identity of the description.
    pub id: JobDefinitionId,
    /// Code of the job.
    pub code: Seq<char>,
    /// Minimum delay between the starts of consecutive iterations.
    pub iteration_interval: Option<int>,
    /// Iteration cap.
    pub max_iterations: Option<u64>,
    /// Number of most recent iterations to keep.
    pub iteration_retention: Option<u64>,
    /// Payload size caps.
    pub task_limits: Option<TaskLimits>,
    /// Initial tasks with the executors that run them.
    pub initial_tasks: Seq<(TaskDefinitionView, ExecutorId)>,
    /// Executors of runtime tasks.
    pub runtime_executors: Seq<(Seq<char>, ExecutorId)>,
    /// Declared dependencies.
    pub dependencies: Seq<(TaskRef, Seq<TaskRef>)>,
}

impl View for JobBuilder {
    type V = JobBuilderView;

    closed spec fn view(&self) -> JobBuilderView {
        JobBuilderView {
            id: self.id,
            code: self.code@,
            iteration_interval: length(self.iteration_interval),
            max_iterations: self.max_iterations,
            iteration_retention: self.iteration_retention,
            task_limits: self.task_limits,
            initial_tasks: described_tasks(self.initial_tasks@),
            runtime_executors: described_executors(self.runtime_executors@),
            dependencies: described_dependencies(self.dependencies@),
        }
    }
}

impl JobBuilderView {
    /// The payload size caps the job gets: those set, or the defaults.
    pub open spec fn limits(self) -> TaskLimits {
        match self.task_limits {
            Some(limits) => limits,
            None => TaskLimits { max_input_bytes: 10_485_760, max_output_bytes: 10_485_760 },
        }
    }

    /// Why the settings beside the tasks are refused, or `None` where they are accepted.
    pub open spec fn settings_refusal(self) -> Option<Seq<char>> {
        if self.max_iterations == Some(0u64) {
            Some("job max iterations must be positive"@)
        } else if self.iteration_retention is Some && self.iteration_retention->Some_0
            < MIN_ITERATION_RETENTION {
            Some(
                "job iteration retention must be at least "@ + decimal(
                    MIN_ITERATION_RETENTION as int,
                ),
            )
        } else if self.iteration_interval == Some(0int) {
            Some("job iteration interval must be positive"@)
        } else if self.iteration_interval is Some && !is_delta(self.iteration_interval->Some_0) {
            Some("job iteration interval is too large"@)
        } else {
            None
        }
    }
}

/// Whether `built` is what becomes of turning the description into a definition.
pub open spec fn builds(builder: JobBuilderView, built: Result<JobDefinition, Error>) -> bool {
    match description(
        builder.id,
        builder.code,
        builder.initial_tasks,
        builder.runtime_executors,
        builder.dependencies,
        builder.limits(),
    ) {
        Err(message) => built matches Err(e) && e@ == ErrorView::Other(message),
        Ok((executors, lists)) => if !is_acyclic(dependency_edges(lists)) {
            built matches Err(e) && e@ is Other && reports_cycle(
                builder.code,
                dependency_edges(lists),
                e@->Other_0,
            )
        } else {
            match builder.settings_refusal() {
                Some(message) => built matches Err(e) && e@ == ErrorView::Other(message),
                None => built matches Ok(definition) && definition.well_formed() && definition@ == (
                JobDefinitionView {
                    code: builder.code,
                    initial_tasks: with_lists(definitions_of(builder.initial_tasks), lists),
                    task_executors: executors,
                    max_iterations: builder.max_iterations,
                    iteration_interval: builder.iteration_interval,
                    task_limits: builder.limits(),
                    iteration_retention: match builder.iteration_retention {
                        Some(retention) => retention,
                        None => DEFAULT_ITERATION_RETENTION,
                    },
                }),
            }
        },
    }
}

/// The declarations that link `tasks` into a sequence: each one waits for the one before it.
pub open spec fn chained(tasks: Seq<TaskRef>) -> Seq<(TaskRef, Seq<TaskRef>)> {
    Seq::new(
        if tasks.len() == 0 {
            0
        } else {
            (tasks.len() - 1) as nat
        },
        |i: int| (tasks[i + 1], seq![tasks[i]]),
    )
}

impl JobBuilder {
    /// An empty description of the job `code`.
    pub fn new(id: JobDefinitionId, code: JobCode) -> (builder: Self)
        ensures
            builder@ == (JobBuilderView {
                id,
                code: code@,
                iteration_interval: None,
                max_iterations: None,
                iteration_retention: None,
                task_limits: None,
                initial_tasks: Seq::empty(),
                runtime_executors: Seq::empty(),
                dependencies: Seq::empty(),
            }),
    {
        let builder = JobBuilder {
            id,
            code,
            iteration_interval: None,
            max_iterations: None,
            iteration_retention: None,
            task_limits: None,
            initial_tasks: Vec::new(),
            runtime_executors: Vec::new(),
            dependencies: Vec::new(),
        };
        assert(builder@.initial_tasks =~= Seq::empty());
        assert(builder@.runtime_executors =~= Seq::empty());
        assert(builder@.dependencies =~= Seq::empty());
        builder
    }

    /// Requires the given delay to elapse from the start of an iteration before the next one may
    /// begin. Without it, the next iteration starts as soon as the previous one finishes.
    pub fn every(&mut self, interval: Duration) -> (this: &mut Self)
        ensures
            this@ == (JobBuilderView { iteration_interval: Some(interval@), ..old(self)@ }),
            *final(self) == *final(this),
    {
        self.iteration_interval = Some(interval);
        self
    }

    /// Caps how many iterations the job runs. The count includes the first one.
    pub fn max_iterations(&mut self, count: u64) -> (this: &mut Self)
        ensures
            this@ == (JobBuilderView { max_iterations: Some(count), ..old(self)@ }),
            *final(self) == *final(this),
    {
        self.max_iterations = Some(count);
        self
    }

    /// Keeps only the given number of most recent iterations in storage.
    pub fn keep_iterations(&mut self, count: u64) -> (this: &mut Self)
        ensures
            this@ == (JobBuilderView { iteration_retention: Some(count), ..old(self)@ }),
            *final(self) == *final(this),
    {
        self.iteration_retention = Some(count);
        self
    }

    /// Replaces the default payload size caps.
    pub fn task_limits(&mut self, limits: TaskLimits) -> (this: &mut Self)
        ensures
            this@ == (JobBuilderView { task_limits: Some(limits), ..old(self)@ }),
            *final(self) == *final(this),
    {
        self.task_limits = Some(limits);
        self
    }

    /// Declares a task created at the start of every iteration, and the executor that runs it.
    ///
    /// The returned reference names the task for [`Self::chain`] and [`Self::depends_on`].
    pub fn add_task(&mut self, definition: TaskDefinition, executor: ExecutorId) -> (reference:
        TaskRef)
        ensures
            reference@ == (TaskRefKind::Initial {
                job_definition: old(self)@.id,
                position: old(self)@.initial_tasks.len() as usize,
            }),
            final(self)@ == (JobBuilderView {
                initial_tasks: old(self)@.initial_tasks.push((definition@, executor)),
                ..old(self)@
            }),
    {
        let ghost before = self@;
        let position: usize = self.initial_tasks.len();
        self.initial_tasks.push((definition, executor));
        assert(self@.initial_tasks =~= before.initial_tasks.push((definition@, executor)));
        TaskRef::initial(self.id, position)
    }

    /// Registers an executor for a task this job creates at runtime. Such a task is not started with
    /// the iteration, so there is nothing here to hand a [`TaskRef`] out for.
    pub fn add_task_executor(&mut self, code: TaskCode, executor: ExecutorId) -> (this: &mut Self)
        ensures
            this@ == (JobBuilderView {
                runtime_executors: old(self)@.runtime_executors.push((code@, executor)),
                ..old(self)@
            }),
            *final(self) == *final(this),
    {
        let ghost before = self@;
        self.runtime_executors.push((code, executor));
        assert(self@.runtime_executors =~= before.runtime_executors.push((code@, executor)));
        self
    }

    /// Makes `task` wait for every reference in `dependencies`.
    ///
    /// The declaration adds to whatever the task's own [`TaskDefinition`] already waits for, so a
    /// task described with [`TaskDefinition::with_dependencies`] ends up waiting for both lists.
    pub fn depends_on(&mut self, task: TaskRef, dependencies: &[TaskRef]) -> (this: &mut Self)
        ensures
            this@ == (JobBuilderView {
                dependencies: old(self)@.dependencies.push((task, dependencies@)),
                ..old(self)@
            }),
            *final(self) == *final(this),
    {
        let ghost before = self@;
        let mut list: Vec<TaskRef> = Vec::new();
        let mut k: usize = 0;
        while k < dependencies.len()
            invariant
                k <= dependencies@.len(),
                list@ == dependencies@.take(k as int),
            decreases dependencies@.len() - k,
        {
            list.push(dependencies[k]);
            assert(dependencies@.take(k + 1) =~= dependencies@.take(k as int).push(
                dependencies@[k as int],
            ));
            k = k + 1;
        }
        assert(dependencies@.take(k as int) =~= dependencies@);
        self.dependencies.push((task, list));
        assert(self@.dependencies =~= before.dependencies.push((task, dependencies@)));
        self
    }

    /// Links the tasks into a sequence: each one waits for the previous.
    ///
    /// Shorthand over [`Self::depends_on`], so both forms write the same dependency list.
    pub fn chain(&mut self, tasks: &[TaskRef]) -> (this: &mut Self)
        ensures
            this@ == (JobBuilderView {
                dependencies: old(self)@.dependencies + chained(tasks@),
                ..old(self)@
            }),
            *final(self) == *final(this),
    {
        let ghost before = self@;
        let mut k: usize = 1;
        assert(self@.dependencies =~= before.dependencies + chained(tasks@).take(0));
        while k < tasks.len()
            invariant
                1 <= k,
                k <= tasks@.len() || (tasks@.len() == 0 && k == 1),
                self@ == (JobBuilderView {
                    dependencies: before.dependencies + chained(tasks@).take(k - 1),
                    ..before
                }),
            decreases tasks@.len() - k,
        {
            let ghost held = self@.dependencies;
            let earlier: [TaskRef; 1] = [tasks[k - 1]];
            self.depends_on(tasks[k], &earlier);
            proof {
                assert(earlier@ =~= seq![tasks@[k - 1]]);
                assert(chained(tasks@)[k - 1] == (tasks@[k as int], seq![tasks@[k - 1]]));
                assert(chained(tasks@).take(k as int) =~= chained(tasks@).take(k - 1).push(
                    chained(tasks@)[k - 1],
                ));
                assert(self@.dependencies =~= before.dependencies + chained(tasks@).take(k as int));
            }
            k = k + 1;
        }
        assert(chained(tasks@).take(k - 1) =~= chained(tasks@));
        self
    }

    /// Turns the description into a validated [`JobDefinition`].
    ///
    /// # Errors
    ///
    /// Returns [`Error::Other`] for any reason [`JobDefinition::new`] rejects the description, or for
    /// a setting the definition does not accept.
    pub fn build_definition(self) -> (built: Result<JobDefinition, Error>)
        ensures
            builds(self@, built),
    {
        let limits = match self.task_limits {
            Some(limits) => limits,
            None => TaskLimits::default(),
        };
        let mut job_def = match JobDefinition::new(
            self.id,
            self.code,
            self.initial_tasks,
            self.runtime_executors,
            self.dependencies,
            limits,
        ) {
            Ok(job_def) => job_def,
            Err(e) => {
                return Err(e);
            },
        };
        if let Some(max_iterations) = self.max_iterations {
            job_def = match job_def.with_max_iterations(max_iterations) {
                Ok(job_def) => job_def,
                Err(e) => {
                    return Err(e);
                },
            };
        }
        if let Some(iteration_retention) = self.iteration_retention {
            job_def = match job_def.with_iteration_retention(iteration_retention) {
                Ok(job_def) => job_def,
                Err(e) => {
                    return Err(e);
                },
            };
        }
        if let Some(iteration_interval) = self.iteration_interval {
            job_def = match job_def.with_iteration_interval(iteration_interval) {
                Ok(job_def) => job_def,
                Err(e) => {
                    return Err(e);
                },
            };
        }
        Ok(job_def)
    }
}

/// Whether `built` is what becomes of building the first `count` of `jobs`: their definitions.
pub open spec fn builds_all(
    jobs: Seq<JobBuilder>,
    definitions: Seq<JobDefinition>,
    count: int,
) -> bool {
    definitions.len() == count && forall|i: int|
        0 <= i < count ==> #[trigger] builds(jobs[i]@, Ok(definitions[i]))
}

/// Whether `built` is what becomes of building `jobs` and indexing them.
///
/// Every job has to build, and the first that does not speaks; then the definitions have to agree on
/// codes.
pub open spec fn builds_registry(jobs: Seq<JobBuilder>, built: Result<JobRegistry, Error>) -> bool {
    if jobs.len() == 0 {
        built matches Err(e) && e@ == ErrorView::Other("at least one job must be added"@)
    } else {
        match built {
            Ok(registry) => registry.well_formed() && exists|definitions: Seq<JobDefinition>|
                #[trigger] builds_all(jobs, definitions, jobs.len() as int) && registered(
                    job_views(definitions),
                ) == Ok::<Map<Seq<char>, JobDefinitionView>, Seq<char>>(registry@)
                    && registry.codes() == job_codes(job_views(definitions)),
            Err(e) => exists|definitions: Seq<JobDefinition>, count: int|
                0 <= count <= jobs.len() && #[trigger] builds_all(jobs, definitions, count) && if count
                    < jobs.len() {
                    builds(jobs[count]@, Err(e))
                } else {
                    registered(job_views(definitions)) matches Err(message) && e@
                        == ErrorView::Other(message)
                },
        }
    }
}

/// Builds the jobs of a pool and indexes them.
///
/// # Errors
///
/// Returns [`Error::Other`] if there is no job, if a description is rejected - the first one speaks -
/// if a job carries an empty code, or if two jobs share a code.
pub fn build_registry(jobs: Vec<JobBuilder>) -> (built: Result<JobRegistry, Error>)
    ensures
        builds_registry(jobs@, built),
{
    if jobs.len() == 0 {
        return Err(Error::Other("at least one job must be added".to_owned()));
    }
    let mut definitions: Vec<JobDefinition> = Vec::new();
    let ghost mut taken: int = 0;
    for job in it: jobs.into_iter()
        invariant
            jobs@.len() > 0,
            it.seq() == jobs@,
            taken == it.index(),
            builds_all(jobs@, definitions@, taken),
            forall|i: int| 0 <= i < taken ==> (#[trigger] definitions@[i]).well_formed(),
    {
        match job.build_definition() {
            Ok(definition) => {
                let ghost before = definitions@;
                definitions.push(definition);
                proof {
                    assert forall|i: int| 0 <= i < taken + 1 implies #[trigger] builds(
                        jobs@[i]@,
                        Ok(definitions@[i]),
                    ) by {
                        if i < taken {
                            assert(builds(jobs@[i]@, Ok(before[i])));
                        }
                    }
                }
            },
            Err(e) => {
                assert(builds_all(jobs@, definitions@, taken));
                assert(builds(jobs@[taken]@, Err(e)));
                return Err(e);
            },
        }
        proof {
            taken = taken + 1;
        }
    }
    let ghost all = definitions@;
    assert(builds_all(jobs@, all, jobs@.len() as int));
    JobRegistry::new(definitions)
}

/// The settings of the workers, as far as they were named, or what the first refused one is told.
pub open spec fn named_settings(
    defaults: WorkerConfigView,
    poll_interval: Option<int>,
    max_poll_interval: Option<int>,
) -> Result<WorkerConfigView, Seq<char>> {
    match (match poll_interval {
        Some(interval) => match defaults.interval_refusal(interval) {
            Some(message) => Err(message),
            None => Ok(WorkerConfigView { poll_interval: interval, ..defaults }),
        },
        None => Ok(defaults),
    }) {
        Err(message) => Err(message),
        Ok(config) => match max_poll_interval {
            Some(ceiling) => match config.ceiling_refusal(ceiling) {
                Some(message) => Err(message),
                None => Ok(WorkerConfigView { max_poll_interval: Some(ceiling), ..config }),
            },
            None => Ok(config),
        },
    }
}

/// The settings of the workers: those named, and the defaults for the rest; or what the first refused
/// one is told.
pub open spec fn worker_settings(
    poll_interval: Option<Duration>,
    poll_jitter: Option<Duration>,
    max_poll_interval: Option<Duration>,
    retrier_config: Option<RetrierConfig>,
) -> Result<WorkerConfigView, Seq<char>> {
    match named_settings(default_settings(), length(poll_interval), length(max_poll_interval)) {
        Err(message) => Err(message),
        Ok(named) => Ok(
            WorkerConfigView {
                poll_jitter: match poll_jitter {
                    Some(jitter) => jitter@,
                    None => named.poll_jitter,
                },
                retrier_config: match retrier_config {
                    Some(retrier) => retrier@,
                    None => named.retrier_config,
                },
                ..named
            },
        ),
    }
}

/// Hands the polling settings a caller named to [`WorkerConfig`], which is where each of them is
/// checked. A setting nobody named is left out, so the config keeps its own default for it.
///
/// # Errors
///
/// Returns the error of the first setting that is refused.
pub fn build_worker_config(
    poll_interval: Option<Duration>,
    poll_jitter: Option<Duration>,
    max_poll_interval: Option<Duration>,
    retrier_config: Option<RetrierConfig>,
) -> (built: Result<WorkerConfig, Error>)
    ensures
        match worker_settings(poll_interval, poll_jitter, max_poll_interval, retrier_config) {
            Err(message) => built matches Err(e) && e@ == ErrorView::Other(message),
            Ok(settings) => built matches Ok(config) && config@ == settings,
        },
{
    let mut config = WorkerConfig::new();
    if let Some(interval) = poll_interval {
        config = match config.with_poll_interval(interval) {
            Ok(config) => config,
            Err(e) => {
                return Err(e);
            },
        };
    }
    if let Some(ceiling) = max_poll_interval {
        config = match config.with_max_poll_interval(ceiling) {
            Ok(config) => config,
            Err(e) => {
                return Err(e);
            },
        };
    }
    if let Some(jitter) = poll_jitter {
        config = config.with_poll_jitter(jitter);
    }
    if let Some(retrier_config) = retrier_config {
        config = config.with_retrier(retrier_config);
    }
    Ok(config)
}

} // verus!
