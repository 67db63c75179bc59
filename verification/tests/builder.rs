//! Descriptions of jobs and pools, and what is refused where they are built.

use std::sync::OnceLock;

use jobmanager::builder::JobBuilder;
use jobmanager::cleaner::JobCleanerConfig;
use jobmanager::code::{JobCode, TaskCode};
use jobmanager::definition::{JobDefinition, JobDefinitionId, TaskLimits};
use jobmanager::error::Error;
use jobmanager::executors::ExecutorId;
use jobmanager::manager::JobsManagerConfig;
use jobmanager::pool::{Backend, JobsManagerBuilder};
use jobmanager::registry::JobRegistry;
use jobmanager::retrier::RetrierConfig;
use jobmanager::task::{TaskDefinition, TaskRef};
use jobmanager::time::Duration;

/// An executor distinct from every other one.
fn noop_executor() -> ExecutorId {
    uuid::Uuid::new_v4().as_u64_pair().1
}

fn task(code: &str) -> TaskDefinition {
    TaskDefinition::new(TaskCode::new(code), Duration::from_secs(1))
}

/// Describes one job under an identity of its own.
fn job<F: FnOnce(&mut JobBuilder)>(code: &str, describe: F) -> JobBuilder {
    let mut job = JobBuilder::new(JobDefinitionId::new(), JobCode::new(code));
    describe(&mut job);
    job
}

/// Builds the pool the way one is assembled around a backend that opens.
fn build(builder: JobsManagerBuilder) -> Result<(JobRegistry, JobsManagerConfig), Error> {
    builder.build()?.finish()
}

/// Identity the descriptions built by [`definition_of`] carry. One for the whole file, because an
/// identity is minted per description and the tests below both rebuild references under it and compare
/// two descriptions against each other.
fn test_definition_id() -> JobDefinitionId {
    static ID: OnceLock<JobDefinitionId> = OnceLock::new();
    *ID.get_or_init(JobDefinitionId::new)
}

#[test]
fn build_rejects_missing_storage() {
    let error = build(JobsManagerBuilder::new()
        .job(job("j", |j| {
            j.add_task(task("t"), noop_executor());
        })))
        .err()
        .expect("a pool without a backend must not build");

    assert!(error.message().contains("storage backend"), "got: {error:?}");
}

#[test]
fn build_rejects_a_pool_without_jobs() {
    let error = build(JobsManagerBuilder::new()
        .in_memory())
        .err()
        .expect("a pool without jobs must not build");

    assert!(error.message().contains("at least one job"), "got: {error:?}");
}

/// The definition is checked at build time, not when the first iteration is planned, so a
/// misconfigured timeout is reported before any worker starts.
#[test]
fn build_rejects_an_invalid_initial_task_definition() {
    let error = build(JobsManagerBuilder::new()
        .in_memory()
        .job(job("j", |j| {
            j.add_task(TaskDefinition::new(TaskCode::new("t"), Duration::zero()), noop_executor());
        })))
        .err()
        .expect("a zero timeout must not build");

    assert!(error.message().contains("timeout"), "got: {error:?}");
}

#[test]
fn build_rejects_job_without_initial_tasks() {
    let error = build(JobsManagerBuilder::new()
        .in_memory()
        .job(job("j", |j| {
            j.add_task_executor(TaskCode::new("t"), noop_executor());
        })))
        .err()
        .expect("a job with no initial task must not build");

    assert!(error.message().contains("no initial task"), "got: {error:?}");
}

#[test]
fn build_rejects_duplicate_job_code() {
    let error = build(JobsManagerBuilder::new()
        .in_memory()
        .job(job("j", |j| {
            j.add_task(task("t"), noop_executor());
        }))
        .job(job("j", |j| {
            j.add_task(task("t"), noop_executor());
        })))
        .err()
        .expect("two jobs sharing a code must not build");

    assert!(error.message().contains("duplicate"), "got: {error:?}");
}

/// Which executor runs a task would otherwise depend on registration order.
#[test]
fn build_rejects_two_executors_for_one_task_code() {
    let error = build(JobsManagerBuilder::new()
        .in_memory()
        .job(job("j", |j| {
            j.add_task(task("t"), noop_executor());
            j.add_task_executor(TaskCode::new("t"), noop_executor());
        })))
        .err()
        .expect("two executors for one code must not build");

    assert!(error.message().contains("two different executors"), "got: {error:?}");
}

/// The graph rules themselves are `JobDefinition`'s and are tested there; this asserts only
/// that a job assembled through the public closure reaches them and reports what they found.
#[test]
fn build_rejects_a_dependency_on_another_jobs_task() {
    let mut stolen = None;
    let error = build(JobsManagerBuilder::new()
        .in_memory()
        .job(job("first", |j| {
            stolen = Some(j.add_task(task("a"), noop_executor()));
        }))
        .job(job("second", |j| {
            let own = j.add_task(task("b"), noop_executor());
            j.depends_on(own, &[stolen.expect("the first job declared a task")]);
        })))
        .err()
        .expect("a cross-job dependency must not build");

    assert!(error.message().contains("outside its own job"), "got: {error:?}");
}

/// A [`TaskRef`] is `Copy` and outlives the builder that handed it out. Identified by its place among
/// the builder's jobs alone, a reference from a foreign builder would resolve here as the local task
/// sitting at that place.
#[test]
fn build_rejects_a_definition_depending_on_another_builders_task() {
    let foreign = task_ref_from_another_builder();

    let error = build(JobsManagerBuilder::new()
        .in_memory()
        .job(job("j", |j| {
            j.add_task(task("a").with_dependencies(vec![foreign]), noop_executor());
        })))
        .err()
        .expect("a dependency from another builder must not build");

    assert!(error.message().contains("outside its own job"), "got: {error:?}");
}

/// The same reference in the position naming the task that is *given* dependencies, which the
/// declaration channel resolves through the same rule.
#[test]
fn build_rejects_a_declaration_naming_another_builders_task() {
    let foreign = task_ref_from_another_builder();

    let error = build(JobsManagerBuilder::new()
        .in_memory()
        .job(job("j", |j| {
            let own = j.add_task(task("a"), noop_executor());
            j.depends_on(foreign, &[own]);
        })))
        .err()
        .expect("a declaration from another builder must not build");

    assert!(error.message().contains("outside its own job"), "got: {error:?}");
}

/// Reference to the first task of the first job of a pool that was built and then dropped -
/// the reference a caller is left holding.
fn task_ref_from_another_builder() -> TaskRef {
    let mut handed_out = None;
    build(JobsManagerBuilder::new()
        .in_memory()
        .job(job("j", |j| {
            handed_out = Some(j.add_task(task("a"), noop_executor()));
        })))
        .expect("the first pool must build");

    handed_out.expect("the job declared a task")
}

/// The setters store their argument unexamined, so building the pool is the only
/// place a caller learns the value was rejected.
#[test]
fn build_rejects_a_pool_without_workers() {
    let error = build(JobsManagerBuilder::new()
        .in_memory()
        .workers(0)
        .job(job("j", |j| {
            j.add_task(task("t"), noop_executor());
        })))
        .err()
        .expect("a pool without workers must not build");

    assert!(
        error.message().contains("worker count must be at least 1"),
        "got: {error:?}"
    );
}

/// A worker given a zero interval polls storage without ever pausing, which saturates a core
/// and bills for an unbounded number of requests.
#[test]
fn build_rejects_a_zero_poll_interval() {
    let error = build(JobsManagerBuilder::new()
        .in_memory()
        .poll_interval(Duration::zero())
        .job(job("j", |j| {
            j.add_task(task("t"), noop_executor());
        })))
        .err()
        .expect("a zero poll interval must not build");

    assert!(
        error.message().contains("poll interval must be positive"),
        "got: {error:?}"
    );
}

/// The maximum is the ceiling the backoff climbs to, so a value below the base would turn the
/// backoff into a speed-up.
#[test]
fn build_rejects_a_maximum_poll_interval_below_the_poll_interval() {
    let error = build(JobsManagerBuilder::new()
        .in_memory()
        .poll_interval(Duration::from_millis(200))
        .max_poll_interval(Duration::from_millis(100))
        .job(job("j", |j| {
            j.add_task(task("t"), noop_executor());
        })))
        .err()
        .expect("a ceiling below the base interval must not build");

    assert!(
        error.message().contains("max poll interval must not be below"),
        "got: {error:?}"
    );
}

/// An unnamed ceiling is derived from the poll interval, so however rarely a pool is polled it
/// is never refused over a ceiling its caller never named.
#[test]
fn build_accepts_a_long_poll_interval_without_a_named_ceiling() {
    build(JobsManagerBuilder::new()
        .in_memory()
        .poll_interval(Duration::from_secs(10))
        .job(job("j", |j| {
            j.add_task(task("t"), noop_executor());
        })))
        .expect("a poll interval with no named ceiling must build");
}

#[test]
fn build_rejects_a_job_with_an_empty_code() {
    let error = build(JobsManagerBuilder::new()
        .in_memory()
        .job(job("", |j| {
            j.add_task(task("t"), noop_executor());
        })))
        .err()
        .expect("a job with an empty code must not build");

    assert!(error.message().contains("job code cannot be empty"), "got: {error:?}");
}

#[test]
fn build_rejects_a_job_that_may_never_iterate() {
    let error = build(JobsManagerBuilder::new()
        .in_memory()
        .job(job("j", |j| {
            j.max_iterations(0);
            j.add_task(task("t"), noop_executor());
        })))
        .err()
        .expect("a job capped at zero iterations must not build");

    assert!(
        error.message().contains("max iterations must be positive"),
        "got: {error:?}"
    );
}

#[test]
fn build_rejects_a_retention_window_below_the_floor() {
    let error = build(JobsManagerBuilder::new()
        .in_memory()
        .job(job("j", |j| {
            j.keep_iterations(4);
            j.add_task(task("t"), noop_executor());
        })))
        .err()
        .expect("a retention window below the floor must not build");

    assert!(
        error.message().contains("iteration retention must be at least"),
        "got: {error:?}"
    );
}

#[test]
fn build_rejects_a_zero_iteration_interval() {
    let error = build(JobsManagerBuilder::new()
        .in_memory()
        .job(job("j", |j| {
            j.every(Duration::zero());
            j.add_task(task("t"), noop_executor());
        })))
        .err()
        .expect("a zero iteration interval must not build");

    assert!(
        error.message().contains("iteration interval must be positive"),
        "got: {error:?}"
    );
}

/// The polling setters store their argument and nothing else, so the defect they are exposed to
/// is one landing on the setting of a neighbour .
#[test]
fn the_polling_setters_record_the_settings_they_name() {
    let builder = JobsManagerBuilder::new()
        .poll_interval(Duration::from_millis(11))
        .poll_jitter(Duration::from_millis(22))
        .max_poll_interval(Duration::from_millis(33));

    assert_eq!(builder.poll_interval, Some(Duration::from_millis(11)));
    assert_eq!(builder.poll_jitter, Some(Duration::from_millis(22)));
    assert_eq!(builder.max_poll_interval, Some(Duration::from_millis(33)));
}

#[test]
fn the_retrier_setter_records_the_retry_policy() {
    let builder = JobsManagerBuilder::new().retrier(RetrierConfig {
        max_attempts: 3,
        rand_delay: Duration::from_millis(7),
        delays: vec![Duration::from_millis(9)],
    });

    let recorded = builder.retrier_config.expect("the setter recorded a policy");
    assert_eq!(recorded.max_attempts, 3);
    assert_eq!(recorded.rand_delay, Duration::from_millis(7));
    assert_eq!(recorded.delays, vec![Duration::from_millis(9)]);
}

#[test]
fn the_cleaner_setter_records_the_cleanup_settings() {
    let builder = JobsManagerBuilder::new().cleaner(JobCleanerConfig {
        enabled: false,
        retrier_config: RetrierConfig {
            max_attempts: 4,
            ..Default::default()
        },
    });

    assert_eq!(builder.cleaner_config.retrier_config.max_attempts, 4);
}

/// Opting out of cleanup must leave the cleaner switched off rather than merely unconfigured.
#[test]
fn no_cleanup_switches_the_cleaner_off() {
    let builder = JobsManagerBuilder::new().no_cleanup();

    assert!(!builder.cleaner_config.enabled);
}

/// Opting out of the read cache must leave the flag the S3 backend is wrapped by cleared rather
/// than merely unconfigured.
#[test]
fn no_cache_switches_the_read_cache_off() {
    assert!(
        JobsManagerBuilder::new().cache_storage,
        "the cache is on until opted out of"
    );
    assert!(!JobsManagerBuilder::new().no_cache().cache_storage);
}

/// Builds one job through the public closure and returns its definition, so a test can assert
/// on what was declared without reaching into the assembled manager.
fn definition_of<F: FnOnce(&mut JobBuilder)>(build: F) -> Result<JobDefinition, Error> {
    let mut job = JobBuilder::new(test_definition_id(), JobCode::new("j"));
    build(&mut job);
    job.build_definition()
}

/// The reference a test compares against names a position under the identity the description
/// was built with, so it is the reference that description handed out.
fn initial_task_ref(position: usize) -> TaskRef {
    TaskRef::initial(test_definition_id(), position)
}

/// The declared order is what the planner will resolve into blocking, so the definition has to
/// carry it literally.
#[test]
fn depends_on_records_the_declared_positions() {
    let job_def = definition_of(|j| {
        let first = j.add_task(task("a"), noop_executor());
        let second = j.add_task(task("b"), noop_executor());
        let third = j.add_task(task("c"), noop_executor());
        j.depends_on(third, &[first, second]);
    })
    .unwrap();

    let declared: Vec<&[TaskRef]> = job_def.initial_tasks().iter().map(|task| task.depends_on().as_slice()).collect();
    assert_eq!(
        declared,
        vec![&[][..], &[][..], &[initial_task_ref(0), initial_task_ref(1)][..]]
    );
}

/// `chain` is shorthand over `depends_on`, so both forms must write the same list rather than
/// two similar-looking ones.
#[test]
fn chain_writes_the_same_dependencies_as_depends_on() {
    let chained = definition_of(|j| {
        let first = j.add_task(task("a"), noop_executor());
        let second = j.add_task(task("b"), noop_executor());
        let third = j.add_task(task("c"), noop_executor());
        j.chain(&[first, second, third]);
    })
    .unwrap();
    let spelled_out = definition_of(|j| {
        let first = j.add_task(task("a"), noop_executor());
        let second = j.add_task(task("b"), noop_executor());
        let third = j.add_task(task("c"), noop_executor());
        j.depends_on(second, &[first]);
        j.depends_on(third, &[second]);
    })
    .unwrap();

    let dependencies = |job_def: &JobDefinition| -> Vec<Vec<TaskRef>> {
        job_def.initial_tasks().iter().map(|task| task.depends_on().clone()).collect()
    };
    assert_eq!(
        dependencies(&chained),
        vec![vec![], vec![initial_task_ref(0)], vec![initial_task_ref(1)]]
    );
    assert_eq!(dependencies(&chained), dependencies(&spelled_out));
}

/// A definition may declare its dependencies itself; a later `depends_on` adds to them rather
/// than replacing them, so neither channel silently loses what the other declared.
#[test]
fn build_definition_keeps_dependencies_declared_on_the_definition() {
    let job_def = definition_of(|j| {
        let first = j.add_task(task("a"), noop_executor());
        let second = j.add_task(task("b"), noop_executor());
        let third = j.add_task(task("c").with_dependencies(vec![first]), noop_executor());
        j.depends_on(third, &[second]);
    })
    .unwrap();

    assert_eq!(
        job_def.initial_tasks()[2].depends_on(),
        &[initial_task_ref(0), initial_task_ref(1)]
    );
}

/// The cache is in front of an S3 backend only, and opting out works on either side of choosing it.
#[test]
fn the_backend_is_settled_by_the_choice_and_the_cache_flag() {
    let backend = |builder: JobsManagerBuilder| {
        builder
            .job(job("j", |j| {
                j.add_task(task("t"), noop_executor());
            }))
            .build()
            .expect("a pool with a backend and a job must build")
            .backend
    };

    assert_eq!(backend(JobsManagerBuilder::new().s3()), Backend::S3 { cached: true });
    assert_eq!(backend(JobsManagerBuilder::new().s3().no_cache()), Backend::S3 { cached: false });
    assert_eq!(backend(JobsManagerBuilder::new().no_cache().s3()), Backend::S3 { cached: false });
    assert_eq!(backend(JobsManagerBuilder::new().no_cache().in_memory()), Backend::InMemory);
}

/// A missing job is reported before a missing backend, and a missing backend before a refused setting.
#[test]
fn the_first_mistake_of_a_pool_speaks() {
    let error = build(JobsManagerBuilder::new().workers(0)).err().unwrap();
    assert_eq!(error.message(), "at least one job must be added");

    let error = build(JobsManagerBuilder::new().workers(0).job(job("j", |j| {
        j.add_task(task("t"), noop_executor());
    })))
    .err()
    .unwrap();
    assert_eq!(error.message(), "storage backend is not configured: call s3() or in_memory()");

    let error = build(
        JobsManagerBuilder::new()
            .in_memory()
            .workers(0)
            .poll_interval(Duration::zero())
            .job(job("j", |j| {
                j.add_task(task("t"), noop_executor());
            })),
    )
    .err()
    .unwrap();
    assert_eq!(error.message(), "poll interval must be positive");
}

/// What was named reaches the pool, and what was not keeps its default.
#[test]
fn a_built_pool_carries_the_settings_it_was_given() {
    let (registry, config) = build(
        JobsManagerBuilder::new()
            .in_memory()
            .workers(3)
            .poll_jitter(Duration::from_millis(7))
            .job(job("first", |j| {
                j.max_iterations(2).every(Duration::from_secs(9)).keep_iterations(6);
                j.task_limits(TaskLimits {
                    max_input_bytes: 1,
                    max_output_bytes: 2,
                });
                j.add_task(task("a"), 11);
                j.add_task_executor(TaskCode::new("later"), 12);
            }))
            .job(job("second", |j| {
                j.add_task(task("b"), 13);
            })),
    )
    .expect("a legal pool must build");

    assert_eq!(config.worker_count, 3);
    assert_eq!(config.worker_config.poll_interval(), Duration::from_millis(200));
    assert_eq!(config.worker_config.poll_jitter(), Duration::from_millis(7));
    assert_eq!(config.worker_config.max_poll_interval(), Duration::from_secs(2));
    assert_eq!(config.worker_config.retrier_config().max_attempts, 20);
    assert!(config.cleaner_config.enabled);

    assert_eq!(registry.jobs_count(), 2);
    let first = registry.get_job(&JobCode::new("first")).unwrap();
    assert_eq!(first.max_iterations(), Some(2));
    assert_eq!(first.iteration_interval(), Some(Duration::from_secs(9)));
    assert_eq!(first.calculate_retention_boundary(7), Some(1));
    assert_eq!(first.task_limits().max_input_bytes, 1);
    assert_eq!(first.task_limits().max_output_bytes, 2);
    assert_eq!(
        registry
            .get_task_executor(&JobCode::new("first"), &TaskCode::new("later"))
            .unwrap(),
        12
    );
    assert_eq!(
        registry
            .get_task_executor(&JobCode::new("second"), &TaskCode::new("b"))
            .unwrap(),
        13
    );
}

/// A job and a task whose codes run together to the same text as another pair stay apart.
#[test]
fn executors_are_found_by_the_pair_of_codes() {
    let (registry, _) = build(
        JobsManagerBuilder::new()
            .in_memory()
            .job(job("a", |j| {
                j.add_task(task("b:c"), 1);
            }))
            .job(job("a:b", |j| {
                j.add_task(task("c"), 2);
            })),
    )
    .expect("a legal pool must build");

    let executor = |job: &str, task: &str| registry.get_task_executor(&JobCode::new(job), &TaskCode::new(task));
    assert_eq!(executor("a", "b:c").unwrap(), 1);
    assert_eq!(executor("a:b", "c").unwrap(), 2);
    assert_eq!(
        executor("a", "c").unwrap_err().message(),
        "executor for task c and job a not exist"
    );
}

/// A chain of one task, or of none, links nothing.
#[test]
fn a_short_chain_links_nothing() {
    let job_def = definition_of(|j| {
        let only = j.add_task(task("a"), noop_executor());
        j.chain(&[only]);
        j.chain(&[]);
    })
    .unwrap();

    assert!(job_def.initial_tasks()[0].depends_on().is_empty());
}

/// An interval no schedule can hold is refused where the pool is built.
#[test]
fn an_oversized_iteration_interval_is_refused() {
    let error = definition_of(|j| {
        j.every(Duration::longest());
        j.add_task(task("a"), noop_executor());
    })
    .unwrap_err();

    assert_eq!(error.message(), "job iteration interval is too large");
}
