//! Jobs: planning, picking, scheduling, failing and merging.

use std::collections::HashMap;
use std::sync::OnceLock;

use jobmanager::code::{JobCode, TaskCode};
use jobmanager::definition::{JobDefinition, JobDefinitionId, TaskLimits};
use jobmanager::error::{Error, JobError};
use jobmanager::executors::ExecutorId;
use jobmanager::job::{IterationStep, Job, RestoredJob};
use jobmanager::job_view::TaskPickup;
use jobmanager::status::{DependencyTolerance, JobStatus, SkipCause, TaskRetry, TaskStatus};
use jobmanager::task::{RestoredTask, Task, TaskDefinition, TaskRef, Uuid, DEFAULT_MAX_ATTEMPTS};
use jobmanager::time::{Duration, Moment, TimeDelta};

fn uuid_of(number: u128) -> Uuid {
    number
}

fn seconds(count: i64) -> TimeDelta {
    TimeDelta::from_millis(count * 1000).unwrap()
}

fn after(moment: Moment, count: i64) -> Moment {
    moment.checked_add_signed(seconds(count)).unwrap()
}

fn from_now(count: i64) -> Moment {
    after(Moment::now(), count)
}

/// An executor distinct from every other one.
fn noop_executor() -> ExecutorId {
    uuid::Uuid::new_v4().as_u64_pair().1
}

fn task_definition(code: &str) -> TaskDefinition {
    TaskDefinition::new(TaskCode::new(code), Duration::from_secs(5))
}

/// Identity every description in these tests is built under, so a reference made with
/// [`initial_task_ref`] belongs to it. One identity for the whole file, because a minted one differs
/// on every call and a reference would then belong to no description at all.
fn test_definition_id() -> JobDefinitionId {
    static ID: OnceLock<JobDefinitionId> = OnceLock::new();
    *ID.get_or_init(JobDefinitionId::new)
}

fn initial_task_ref(position: usize) -> TaskRef {
    TaskRef::initial(test_definition_id(), position)
}

/// Wraps definitions into a validated description under the default limits, so a test about tasks
/// does not have to spell out an executor for each of them.
fn job_definition(tasks: Vec<TaskDefinition>) -> JobDefinition {
    job_definition_with_limits(tasks, TaskLimits::default())
}

fn job_definition_with_limits(tasks: Vec<TaskDefinition>, limits: TaskLimits) -> JobDefinition {
    let executor = noop_executor();
    let initial_tasks = tasks.into_iter().map(|task| (task, executor)).collect();
    JobDefinition::new(
        test_definition_id(),
        JobCode::new("job"),
        initial_tasks,
        Vec::new(),
        Vec::new(),
        limits,
    )
    .expect("the test description must be legal")
}

#[allow(clippy::too_many_arguments)]
fn restored_task(
    id: Uuid,
    code: TaskCode,
    status: TaskStatus,
    processing_by_worker: Option<Uuid>,
    created_by_worker: Uuid,
    timeout: TimeDelta,
    max_lifetime: TimeDelta,
    started_at: Option<Moment>,
    completed_at: Option<Moment>,
    deadline_at: Option<Moment>,
    lifetime_deadline_at: Option<Moment>,
    attempt: u32,
    max_attempts: u32,
    input: Vec<u8>,
    output: Vec<u8>,
    resolution_reason: String,
    depends_on: Vec<Uuid>,
) -> Task {
    Task::restore(RestoredTask {
        id,
        code,
        status,
        processing_by_worker,
        created_by_worker,
        timeout,
        max_lifetime,
        started_at,
        completed_at,
        deadline_at,
        lifetime_deadline_at,
        attempt,
        max_attempts,
        input,
        output,
        resolution_reason,
        retry: TaskRetry::WhileBudgetLasts,
        tolerance: DependencyTolerance::default(),
        depends_on,
    })
}

fn make_task(id: Uuid, code: &str, status: TaskStatus, depends_on: Vec<Uuid>) -> Task {
    make_task_with_attempts(id, code, status, depends_on, 0, DEFAULT_MAX_ATTEMPTS, None)
}

/// A task restored with an explicit attempt count and budget, so tests can build a task that is one
/// retry away from its cap, or already past it.
///
/// `lifetime_left` places the lifetime deadline that far from now; `None` leaves the task as one that
/// has never been started, whose lifetime has therefore not begun.
fn make_task_with_attempts(
    id: Uuid,
    code: &str,
    status: TaskStatus,
    depends_on: Vec<Uuid>,
    attempt: u32,
    max_attempts: u32,
    lifetime_left: Option<TimeDelta>,
) -> Task {
    restored_task(
        id,
        TaskCode::new(code),
        status,
        None,
        uuid::Uuid::new_v4().as_u128(),
        seconds(5),
        seconds(25),
        None,
        None,
        None,
        lifetime_left.map(|left| Moment::now().checked_add_signed(left).unwrap()),
        attempt,
        max_attempts,
        Vec::new(),
        Vec::new(),
        String::new(),
        depends_on,
    )
}

#[allow(clippy::too_many_arguments)]
fn restored_job(
    id: Uuid,
    code: JobCode,
    version: String,
    iter_num: u64,
    status: JobStatus,
    tasks: Vec<Task>,
    updated_by_worker_id: Uuid,
    started_at: Moment,
    running_at: Option<Moment>,
    completed_at: Option<Moment>,
    next_start_at: Option<Moment>,
    metadata: HashMap<String, serde_json::Value>,
    max_iterations: Option<u64>,
    iteration_interval: Option<Duration>,
    task_limits: TaskLimits,
) -> Job {
    Job::restore(RestoredJob {
        id,
        code,
        version,
        iter_num,
        status,
        tasks,
        updated_by_worker_id,
        started_at,
        running_at,
        completed_at,
        next_start_at,
        metadata,
        max_iterations,
        iteration_interval,
        task_limits,
    })
}

#[allow(clippy::too_many_arguments)]
fn restore_job(
    id: Uuid,
    status: JobStatus,
    tasks: Vec<Task>,
    iter_num: u64,
    max_iterations: Option<u64>,
    iteration_interval: Option<Duration>,
    updated_by_worker_id: Uuid,
    running_at: Option<Moment>,
    completed_at: Option<Moment>,
    next_start_at: Option<Moment>,
    metadata: HashMap<String, serde_json::Value>,
) -> Job {
    restored_job(
        id,
        JobCode::new("job"),
        String::new(),
        iter_num,
        status,
        tasks,
        updated_by_worker_id,
        Moment::now(),
        running_at,
        completed_at,
        next_start_at,
        metadata,
        max_iterations,
        iteration_interval,
        TaskLimits::default(),
    )
}

/// The same iteration in another state.
fn with_status(job: &Job, status: JobStatus) -> Job {
    restored_job(
        *job.id(),
        job.code().clone(),
        job.version().to_string(),
        job.iter_num(),
        status,
        job.tasks(),
        job.updated_by_worker_id(),
        job.started_at(),
        job.running_at(),
        job.completed_at(),
        job.next_start_at(),
        job.metadata().clone(),
        job.max_iterations(),
        job.iteration_interval(),
        job.task_limits(),
    )
}

#[test]
fn test_pick_task_to_execute_todo() {
    let task_id = uuid_of(1);
    let task = make_task(task_id, "todo", TaskStatus::Todo, Vec::new());
    let worker_id = uuid_of(100);
    let mut job = restore_job(
        uuid_of(101),
        JobStatus::Started,
        vec![task],
        1,
        Some(1),
        None,
        worker_id,
        None,
        None,
        None,
        HashMap::new(),
    );

    let picked = job.pick_task_to_execute(&worker_id).unwrap();
    assert_eq!(picked, TaskPickup::Ready(task_id));
}

#[test]
fn test_pick_task_to_execute_blocked_with_unmet_deps() {
    let shift_id = uuid_of(2);
    let commit_id = uuid_of(3);
    let shift = make_task(shift_id, "shift", TaskStatus::Todo, Vec::new());
    let commit = make_task(commit_id, "commit", TaskStatus::Blocked, vec![shift_id]);
    let worker_id = uuid_of(100);
    let mut job = restore_job(
        uuid_of(102),
        JobStatus::Started,
        vec![shift, commit],
        1,
        Some(1),
        None,
        worker_id,
        None,
        None,
        None,
        HashMap::new(),
    );

    let picked = job.pick_task_to_execute(&worker_id).unwrap();
    assert_eq!(picked, TaskPickup::Ready(shift_id));
    let commit_status = job.get_task(&commit_id).unwrap().status().clone();
    assert_eq!(commit_status, TaskStatus::Blocked);
}

#[test]
fn test_pick_task_to_execute_unblocks_when_deps_complete() {
    let shift_id = uuid_of(4);
    let commit_id = uuid_of(5);
    let shift = make_task(shift_id, "shift", TaskStatus::Completed, Vec::new());
    let commit = make_task(commit_id, "commit", TaskStatus::Blocked, vec![shift_id]);
    let worker_id = uuid_of(100);
    let mut job = restore_job(
        uuid_of(103),
        JobStatus::Started,
        vec![shift, commit],
        1,
        Some(1),
        None,
        worker_id,
        None,
        None,
        None,
        HashMap::new(),
    );

    let picked = job.pick_task_to_execute(&worker_id).unwrap();
    assert_eq!(picked, TaskPickup::Ready(commit_id));
    let commit_status = job.get_task(&commit_id).unwrap().status().clone();
    assert_eq!(commit_status, TaskStatus::Todo);
}

#[test]
fn test_pick_task_to_execute_returns_none_when_no_pickable() {
    let started = make_task(uuid_of(6), "started", TaskStatus::Started, Vec::new());
    let worker_id = uuid_of(100);
    let mut job = restore_job(
        uuid_of(104),
        JobStatus::Started,
        vec![started],
        1,
        Some(1),
        None,
        worker_id,
        None,
        None,
        None,
        HashMap::new(),
    );

    let picked = job.pick_task_to_execute(&worker_id).unwrap();
    assert_eq!(picked, TaskPickup::Waiting);
}

#[test]
fn test_pick_task_to_execute_failed_task() {
    let failed_id = uuid_of(7);
    let failed = make_task(failed_id, "failed", TaskStatus::Failed, Vec::new());
    let worker_id = uuid_of(100);
    let mut job = restore_job(
        uuid_of(105),
        JobStatus::Started,
        vec![failed],
        1,
        Some(1),
        None,
        worker_id,
        None,
        None,
        None,
        HashMap::new(),
    );

    let picked = job.pick_task_to_execute(&worker_id).unwrap();
    assert_eq!(picked, TaskPickup::Ready(failed_id));
}

#[test]
fn test_pick_task_to_execute_expired_started_task() {
    let expired = restored_task(
        uuid_of(8),
        TaskCode::new("expired"),
        TaskStatus::Started,
        None,
        uuid_of(101),
        seconds(5),
        seconds(300),
        Some(from_now(-10)),
        None,
        Some(from_now(-1)),
        None,
        0,
        DEFAULT_MAX_ATTEMPTS,
        Vec::new(),
        Vec::new(),
        String::new(),
        Vec::new(),
    );

    let worker_id = uuid_of(100);
    let mut job = restore_job(
        uuid_of(106),
        JobStatus::Started,
        vec![expired],
        1,
        Some(1),
        None,
        worker_id,
        None,
        None,
        None,
        HashMap::new(),
    );

    let picked = job.pick_task_to_execute(&worker_id).unwrap();
    assert_eq!(picked, TaskPickup::Ready(uuid_of(8)));
}

/// Build an expired Started task (deadline in the past) with an explicit attempt count and
/// budget, and a lifetime deadline `lifetime_left` away, so a test can place it on either side
/// of the limit it is about.
fn make_expired_started_task(id: Uuid, attempt: u32, max_attempts: u32, lifetime_left: TimeDelta) -> Task {
    restored_task(
        id,
        TaskCode::new("expired"),
        TaskStatus::Started,
        Some(uuid_of(101)),
        uuid_of(101),
        seconds(5),
        seconds(25),
        Some(from_now(-10)),
        None,
        Some(from_now(-1)),
        Some(Moment::now().checked_add_signed(lifetime_left).unwrap()),
        attempt,
        max_attempts,
        Vec::new(),
        Vec::new(),
        String::new(),
        Vec::new(),
    )
}

#[test]
fn test_pick_task_to_execute_retries_expired_started_with_attempts_spent() {
    // What the lifetime exists for: a task whose workers kept dying has spent its
    // whole attempt budget on takeovers it was never charged for, and is still picked up
    // because its lifetime has not passed.
    let expired_id = uuid_of(140);
    let expired = make_expired_started_task(expired_id, 2, 2, seconds(60));
    let worker_id = uuid_of(100);
    let mut job = restore_job(
        uuid_of(141),
        JobStatus::Started,
        vec![expired],
        1,
        Some(1),
        None,
        worker_id,
        None,
        None,
        None,
        HashMap::new(),
    );

    let picked = job.pick_task_to_execute(&worker_id).unwrap();
    assert_eq!(picked, TaskPickup::Ready(expired_id));
}

/// An expired Started task past its maximum lifetime is failed and ends the iteration, instead
/// of being taken over forever - attempts left or not.
///
/// Both cases above the boundary: a lifetime deadline the clock has only just caught up with
/// ends the iteration exactly as one a second old does. What this pass owns is the iteration
/// verdict; the boundary itself, the instant included, is asserted against `Task` directly in
/// `an_expired_task_is_failed_instead_of_taken_over_once_its_lifetime_has_passed`, which judges
/// by a moment it names. The case below the boundary is
/// `test_pick_task_to_execute_retries_expired_started_with_attempts_spent`.
#[test]
fn test_pick_task_to_execute_fails_iteration_when_expired_started_outlives_its_lifetime() {
    for lifetime_left in [seconds(0), seconds(-1)] {
        let expired_id = uuid_of(142);
        let expired = make_expired_started_task(expired_id, 1, 5, lifetime_left);
        let worker_id = uuid_of(100);
        let mut job = restore_job(
            uuid_of(143),
            JobStatus::Started,
            vec![expired],
            1,
            Some(1),
            None,
            worker_id,
            None,
            None,
            None,
            HashMap::new(),
        );

        let picked = job.pick_task_to_execute(&worker_id).unwrap();
        assert_eq!(picked, TaskPickup::Exhausted, "lifetime left: {lifetime_left:?}");
        assert!(
            matches!(job.status(), JobStatus::Failed),
            "lifetime left: {lifetime_left:?}"
        );
        let expired_status = job.get_task(&expired_id).unwrap().status().clone();
        assert_eq!(expired_status, TaskStatus::Failed, "lifetime left: {lifetime_left:?}");
    }
}

/// A state a job read back from storage can hold: the maximum lifetime has passed
/// while the deadline of the executor holding the task has not. The lifetime is the absolute
/// bound, so the task is failed and the iteration ends rather than waiting the deadline out -
/// the executor is by then past the moment it was signalled at, and whatever it returns is
/// refused.
#[test]
fn test_pick_task_to_execute_fails_a_task_past_its_lifetime_within_its_deadline() {
    let running_id = uuid_of(146);
    let running = restored_task(
        running_id,
        TaskCode::new("running"),
        TaskStatus::Started,
        Some(uuid_of(101)),
        uuid_of(101),
        seconds(5),
        seconds(25),
        Some(from_now(-30)),
        None,
        Some(from_now(5)),
        Some(from_now(-1)),
        1,
        DEFAULT_MAX_ATTEMPTS,
        Vec::new(),
        Vec::new(),
        String::new(),
        Vec::new(),
    );
    let worker_id = uuid_of(100);
    let mut job = restore_job(
        uuid_of(147),
        JobStatus::Started,
        vec![running],
        1,
        Some(1),
        None,
        worker_id,
        None,
        None,
        None,
        HashMap::new(),
    );

    let picked = job.pick_task_to_execute(&worker_id).unwrap();

    assert_eq!(picked, TaskPickup::Exhausted);
    let running_status = job.get_task(&running_id).unwrap().status().clone();
    assert_eq!(running_status, TaskStatus::Failed);
    assert!(matches!(job.status(), JobStatus::Failed));
}

#[test]
fn test_pick_task_to_execute_all_tasks_completed_error() {
    let completed = make_task(uuid_of(9), "done", TaskStatus::Completed, Vec::new());
    let worker_id = uuid_of(100);
    let mut job = restore_job(
        uuid_of(107),
        JobStatus::Started,
        vec![completed],
        1,
        Some(1),
        None,
        worker_id,
        None,
        None,
        None,
        HashMap::new(),
    );

    let err = job.pick_task_to_execute(&worker_id).unwrap_err();
    assert!(matches!(err, JobError::Other(_)));
}

#[test]
fn test_pick_task_to_execute_deadlock_blocked_error() {
    let commit = make_task(
        uuid_of(10),
        "commit",
        TaskStatus::Blocked,
        vec![uuid_of(11)],
    );
    let worker_id = uuid_of(100);
    let mut job = restore_job(
        uuid_of(108),
        JobStatus::Started,
        vec![commit],
        1,
        Some(1),
        None,
        worker_id,
        None,
        None,
        None,
        HashMap::new(),
    );

    let err = job.pick_task_to_execute(&worker_id).unwrap_err();
    assert!(matches!(err, JobError::Other(_)));
}

#[test]
fn test_pick_task_to_execute_retries_failed_task_below_attempt_limit() {
    let failed_id = uuid_of(14);
    let failed = make_task_with_attempts(
        failed_id,
        "failed",
        TaskStatus::Failed,
        Vec::new(),
        1,
        2,
        Some(seconds(60)),
    );
    let worker_id = uuid_of(100);
    let mut job = restore_job(
        uuid_of(111),
        JobStatus::Started,
        vec![failed],
        1,
        Some(1),
        None,
        worker_id,
        None,
        None,
        None,
        HashMap::new(),
    );

    let picked = job.pick_task_to_execute(&worker_id).unwrap();
    assert_eq!(picked, TaskPickup::Ready(failed_id));
}

#[test]
fn test_pick_task_to_execute_fails_iteration_when_attempts_exhausted() {
    let failed_id = uuid_of(15);
    let failed = make_task_with_attempts(
        failed_id,
        "failed",
        TaskStatus::Failed,
        Vec::new(),
        2,
        2,
        Some(seconds(60)),
    );
    let worker_id = uuid_of(100);
    let mut job = restore_job(
        uuid_of(112),
        JobStatus::Started,
        vec![failed],
        1,
        Some(1),
        None,
        worker_id,
        None,
        None,
        None,
        HashMap::new(),
    );

    let picked = job.pick_task_to_execute(&worker_id).unwrap();
    assert_eq!(picked, TaskPickup::Exhausted);
    assert!(matches!(job.status(), JobStatus::Failed));
    assert!(job.completed_at().is_some());
}

/// The second limit seen from the `Failed` side: a task whose executor keeps refusing it is
/// terminal once its maximum lifetime has passed, whatever is left of its attempt budget, so
/// retries that run long or start late cannot hold the iteration open forever.
///
/// The fixture carries four of five attempts unspent, which is what makes the lifetime the only
/// limit that can end this iteration.
#[test]
fn test_pick_task_to_execute_fails_iteration_when_a_failed_task_outlives_its_lifetime() {
    let failed_id = uuid_of(148);
    let failed = make_task_with_attempts(
        failed_id,
        "failed",
        TaskStatus::Failed,
        Vec::new(),
        1,
        5,
        Some(seconds(-1)),
    );
    let worker_id = uuid_of(100);
    let mut job = restore_job(
        uuid_of(149),
        JobStatus::Started,
        vec![failed],
        1,
        Some(1),
        None,
        worker_id,
        None,
        None,
        None,
        HashMap::new(),
    );

    let picked = job.pick_task_to_execute(&worker_id).unwrap();

    assert_eq!(picked, TaskPickup::Exhausted);
    assert!(matches!(job.status(), JobStatus::Failed));
    assert!(job.completed_at().is_some(), "a failed iteration records when it ended");
}

#[test]
fn test_pick_task_to_execute_fails_iteration_for_task_blocked_behind_exhausted_task() {
    // The dependent task must never run once its dependency is terminal, and
    // the iteration must end as Failed rather than as a "deadlock" error.
    let failed_id = uuid_of(16);
    let dependent_id = uuid_of(17);
    let failed = make_task_with_attempts(
        failed_id,
        "failed",
        TaskStatus::Failed,
        Vec::new(),
        2,
        2,
        Some(seconds(60)),
    );
    let dependent = make_task(dependent_id, "dependent", TaskStatus::Blocked, vec![failed_id]);
    let worker_id = uuid_of(100);
    let mut job = restore_job(
        uuid_of(113),
        JobStatus::Started,
        vec![failed, dependent],
        1,
        Some(1),
        None,
        worker_id,
        None,
        None,
        None,
        HashMap::new(),
    );

    let picked = job.pick_task_to_execute(&worker_id).unwrap();
    assert_eq!(picked, TaskPickup::Exhausted);
    assert!(matches!(job.status(), JobStatus::Failed));
    let dependent_status = job.get_task(&dependent_id).unwrap().status().clone();
    assert_eq!(dependent_status, TaskStatus::Blocked);
}

#[test]
fn test_pick_task_to_execute_waits_while_another_task_runs_after_exhausted_task() {
    // An in-flight task may still unblock work, so an exhausted task ends the
    // iteration only once nothing is running.
    let failed = make_task_with_attempts(
        uuid_of(18),
        "failed",
        TaskStatus::Failed,
        Vec::new(),
        2,
        2,
        Some(seconds(60)),
    );
    let started = restored_task(
        uuid_of(19),
        TaskCode::new("started"),
        TaskStatus::Started,
        Some(uuid_of(114)),
        uuid_of(114),
        seconds(5),
        seconds(300),
        Some(Moment::now()),
        None,
        Some(from_now(60)),
        None,
        1,
        DEFAULT_MAX_ATTEMPTS,
        Vec::new(),
        Vec::new(),
        String::new(),
        Vec::new(),
    );
    let worker_id = uuid_of(100);
    let mut job = restore_job(
        uuid_of(115),
        JobStatus::Started,
        vec![failed, started],
        1,
        Some(1),
        None,
        worker_id,
        None,
        None,
        None,
        HashMap::new(),
    );

    let picked = job.pick_task_to_execute(&worker_id).unwrap();
    assert_eq!(picked, TaskPickup::Waiting);
    assert!(matches!(job.status(), JobStatus::Running));
}

#[test]
fn test_pick_task_to_execute_completed_job_invalid_transition() {
    let completed = make_task(uuid_of(12), "done", TaskStatus::Completed, Vec::new());
    let worker_id = uuid_of(101);
    let mut job = restore_job(
        uuid_of(109),
        JobStatus::Completed,
        vec![completed],
        1,
        Some(1),
        None,
        worker_id,
        None,
        Some(Moment::now()),
        None,
        HashMap::new(),
    );

    let err = job.pick_task_to_execute(&worker_id).unwrap_err();
    assert!(matches!(err, JobError::InvalidStatusTransition { .. }));
}

#[test]
fn test_pick_task_to_execute_failed_job_invalid_transition() {
    let failed = make_task(uuid_of(13), "failed", TaskStatus::Failed, Vec::new());
    let worker_id = uuid_of(102);
    let mut job = restore_job(
        uuid_of(110),
        JobStatus::Failed,
        vec![failed],
        1,
        Some(1),
        None,
        worker_id,
        None,
        Some(Moment::now()),
        None,
        HashMap::new(),
    );

    let err = job.pick_task_to_execute(&worker_id).unwrap_err();
    assert!(matches!(err, JobError::InvalidStatusTransition { .. }));
}

#[test]
fn test_next_iteration_success() {
    let old_task_id = uuid_of(20);
    let old_task = make_task(old_task_id, "old", TaskStatus::Completed, Vec::new());
    let mut metadata = HashMap::new();
    metadata.insert("key".to_string(), serde_json::Value::String("value".to_string()));
    let job_id = uuid_of(21);
    let worker_id = uuid_of(22);

    let mut job = restore_job(
        job_id,
        JobStatus::Completed,
        vec![old_task],
        3,
        Some(5),
        None,
        uuid_of(200),
        None,
        Some(Moment::now()),
        None,
        metadata.clone(),
    );

    // The settings of the new iteration come from the description, which is what a worker
    // re-reads on every load - not from the iteration being replaced.
    let job_def = job_definition(vec![task_definition("new")]).with_max_iterations(5).unwrap();
    let before = Moment::now();
    job.next_iteration(&job_def, worker_id).unwrap();

    assert_eq!(*job.id(), job_id);
    assert_eq!(job.iter_num(), 4);
    assert!(matches!(job.status(), JobStatus::Started));
    assert_eq!(job.updated_by_worker_id(), worker_id);
    assert_eq!(job.max_iterations(), Some(5));
    assert_eq!(*job.metadata(), metadata);
    assert!(job.started_at() >= before);
    assert_eq!(job.tasks().len(), 1);
    assert!(!job.find_task(&old_task_id).is_ok());
}

#[test]
fn test_next_iteration_not_ready_status() {
    let task = make_task(uuid_of(30), "todo", TaskStatus::Todo, Vec::new());
    let mut job = restore_job(
        uuid_of(31),
        JobStatus::Running,
        vec![task],
        1,
        None,
        None,
        uuid_of(300),
        Some(Moment::now()),
        None,
        None,
        HashMap::new(),
    );

    let err = job
        .next_iteration(&job_definition(vec![task_definition("t")]), uuid_of(301))
        .unwrap_err();
    assert!(matches!(err, JobError::Other(_)));
}

#[test]
fn test_next_iteration_limit_reached() {
    let task = make_task(uuid_of(32), "done", TaskStatus::Completed, Vec::new());
    let mut job = restore_job(
        uuid_of(33),
        JobStatus::Completed,
        vec![task],
        2,
        Some(2),
        None,
        uuid_of(302),
        None,
        Some(Moment::now()),
        None,
        HashMap::new(),
    );

    let err = job
        .next_iteration(&job_definition(vec![task_definition("t")]), uuid_of(303))
        .unwrap_err();
    assert!(matches!(err, JobError::Other(_)));
}

#[test]
fn test_next_iteration_next_start_in_future() {
    let task = make_task(uuid_of(34), "done", TaskStatus::Completed, Vec::new());
    let mut job = restore_job(
        uuid_of(35),
        JobStatus::Completed,
        vec![task],
        1,
        None,
        None,
        uuid_of(304),
        None,
        Some(Moment::now()),
        Some(from_now(60)),
        HashMap::new(),
    );

    let err = job
        .next_iteration(&job_definition(vec![task_definition("t")]), uuid_of(305))
        .unwrap_err();
    assert!(matches!(err, JobError::Other(_)));
}

#[test]
fn test_is_ready_to_next_iteration_anchors_to_restored_started_at() {
    // Simulates a process restart: the job is reloaded from storage carrying the
    // started_at of the iteration that already completed. The next-iteration rule
    // must anchor on that persisted started_at, not on the reload moment, so an
    // interval that already elapsed before the restart becomes eligible immediately
    // instead of waiting another full interval from restart time.
    let task = make_task(uuid_of(370), "done", TaskStatus::Completed, Vec::new());
    let started_at = from_now(-120);
    let job = restored_job(
        uuid_of(371),
        JobCode::new("job"),
        String::new(),
        1,
        JobStatus::Completed,
        vec![task],
        uuid_of(372),
        started_at,
        None,
        Some(after(started_at, 2)),
        None,
        HashMap::new(),
        None,
        Some(Duration::from_secs(60)),
        TaskLimits::default(),
    );

    assert_eq!(job.started_at(), started_at);
    assert!(job.is_ready_to_next_iteration());
}

#[test]
fn test_is_ready_to_next_iteration_waits_from_restored_started_at() {
    // Counterpart of the restart anchor test: when the persisted started_at is recent,
    // the next iteration is held back for the remainder of the interval regardless of reload time.
    let task = make_task(uuid_of(373), "done", TaskStatus::Completed, Vec::new());
    let started_at = from_now(-5);
    let job = restored_job(
        uuid_of(374),
        JobCode::new("job"),
        String::new(),
        1,
        JobStatus::Completed,
        vec![task],
        uuid_of(375),
        started_at,
        None,
        Some(after(started_at, 2)),
        None,
        HashMap::new(),
        None,
        Some(Duration::from_secs(60)),
        TaskLimits::default(),
    );

    assert!(!job.is_ready_to_next_iteration());
}

#[test]
fn test_set_next_start_at_overrides_iteration_interval_floor() {
    let task = make_task(uuid_of(366), "done", TaskStatus::Completed, Vec::new());
    let mut job = restored_job(
        uuid_of(367),
        JobCode::new("job"),
        String::new(),
        1,
        JobStatus::Completed,
        vec![task],
        uuid_of(368),
        Moment::now(),
        None,
        Some(Moment::now()),
        None,
        HashMap::new(),
        None,
        Some(Duration::from_secs(60)),
        TaskLimits::default(),
    );

    assert!(!job.is_ready_to_next_iteration());
    job.set_next_start_at(from_now(-1));
    assert!(job.is_ready_to_next_iteration());
}

/// A running iteration has no next one to schedule: the state it would be scheduled from does
/// not exist yet.
#[test]
fn a_running_iteration_has_no_due_moment() {
    let task = make_task(uuid_of(380), "todo", TaskStatus::Todo, Vec::new());
    let job = restore_job(
        uuid_of(381),
        JobStatus::Running,
        vec![task],
        1,
        None,
        None,
        uuid_of(382),
        Some(Moment::now()),
        None,
        None,
        HashMap::new(),
    );

    assert_eq!(job.next_iteration_start_at(), None);
}

/// A job that spent its iteration budget never becomes due again, so a caller must not be told
/// to wait for a moment that will not come.
#[test]
fn a_job_at_its_iteration_limit_has_no_due_moment() {
    let task = make_task(uuid_of(383), "done", TaskStatus::Completed, Vec::new());
    let job = restore_job(
        uuid_of(384),
        JobStatus::Completed,
        vec![task],
        2,
        Some(2),
        None,
        uuid_of(385),
        None,
        Some(Moment::now()),
        None,
        HashMap::new(),
    );

    assert_eq!(job.next_iteration_start_at(), None);
}

/// An explicit next start is the moment itself, and it overrides the interval - both directions
/// of that override are already covered by the tests above.
#[test]
fn an_explicit_next_start_is_the_due_moment() {
    let next_start_at = from_now(60);
    let task = make_task(uuid_of(386), "done", TaskStatus::Completed, Vec::new());
    let mut job = restore_job(
        uuid_of(387),
        JobStatus::Completed,
        vec![task],
        1,
        None,
        Some(Duration::from_secs(60)),
        uuid_of(388),
        None,
        Some(Moment::now()),
        None,
        HashMap::new(),
    );
    job.set_next_start_at(next_start_at);

    assert_eq!(job.next_iteration_start_at(), Some(next_start_at));
}

/// The interval is counted from the start of the iteration, not from its end, so a long
/// iteration does not push the schedule.
#[test]
fn an_interval_is_due_one_interval_after_the_iteration_started() {
    let started_at = from_now(-30);
    let task = make_task(uuid_of(389), "done", TaskStatus::Completed, Vec::new());
    let job = restored_job(
        uuid_of(390),
        JobCode::new("job"),
        String::new(),
        1,
        JobStatus::Completed,
        vec![task],
        uuid_of(391),
        started_at,
        None,
        Some(after(started_at, 2)),
        None,
        HashMap::new(),
        None,
        Some(Duration::from_secs(60)),
        TaskLimits::default(),
    );

    assert_eq!(job.next_iteration_start_at(), Some(after(started_at, 60)));
}

/// Without a schedule the next iteration is due at once. The start of the current iteration is
/// the moment used for that: it is always in the past and, unlike the completion time, always
/// present.
#[test]
fn a_job_without_a_schedule_is_due_at_the_start_of_its_current_iteration() {
    let started_at = from_now(-5);
    let task = make_task(uuid_of(392), "done", TaskStatus::Completed, Vec::new());
    let job = restored_job(
        uuid_of(393),
        JobCode::new("job"),
        String::new(),
        1,
        JobStatus::Completed,
        vec![task],
        uuid_of(394),
        started_at,
        None,
        Some(Moment::now()),
        None,
        HashMap::new(),
        None,
        None,
        TaskLimits::default(),
    );

    assert_eq!(job.next_iteration_start_at(), Some(started_at));
}

/// The predicate must read the moment rather than re-derive the rule: a state whose moment has
/// passed is ready, one whose moment is ahead is not.
#[test]
fn readiness_follows_the_due_moment() {
    let task = make_task(uuid_of(395), "done", TaskStatus::Completed, Vec::new());
    let mut job = restore_job(
        uuid_of(396),
        JobStatus::Completed,
        vec![task],
        1,
        None,
        None,
        uuid_of(397),
        None,
        Some(Moment::now()),
        None,
        HashMap::new(),
    );

    job.set_next_start_at(from_now(-1));
    assert!(job.is_ready_to_next_iteration());
    assert!(job.next_iteration_start_at().is_some_and(|due| Moment::now() >= due));

    job.set_next_start_at(from_now(60));
    assert!(!job.is_ready_to_next_iteration());
    assert!(job.next_iteration_start_at().is_some_and(|due| Moment::now() < due));
}

/// The same agreement for a job scheduled by an interval rather than by an explicit start: the
/// predicate answers for the moment the interval names, in both directions.
///
/// The moment *itself* is not asserted anywhere: both sides of the comparison read the wall
/// clock, so a job is only ever exactly due for the nanosecond it takes to ask, and no test can
/// hold it there.
#[test]
fn readiness_follows_the_due_moment_of_an_interval() {
    let interval = Duration::from_secs(60);
    let task = make_task(uuid_of(398), "done", TaskStatus::Completed, Vec::new());
    let elapsed = restored_job(
        uuid_of(399),
        JobCode::new("job"),
        String::new(),
        1,
        JobStatus::Completed,
        vec![task.clone()],
        uuid_of(400),
        from_now(-61),
        None,
        Some(Moment::now()),
        None,
        HashMap::new(),
        None,
        Some(interval),
        TaskLimits::default(),
    );
    let pending = restored_job(
        uuid_of(401),
        JobCode::new("job"),
        String::new(),
        1,
        JobStatus::Completed,
        vec![task],
        uuid_of(402),
        from_now(-1),
        None,
        Some(Moment::now()),
        None,
        HashMap::new(),
        None,
        Some(interval),
        TaskLimits::default(),
    );

    assert!(elapsed.is_ready_to_next_iteration());
    assert!(elapsed.next_iteration_start_at().is_some_and(|due| Moment::now() >= due));
    assert!(!pending.is_ready_to_next_iteration());
    assert!(pending.next_iteration_start_at().is_some_and(|due| Moment::now() < due));
}

/// A completed iteration whose next one is scheduled by an explicit moment, which every step
/// test below moves around that moment.
fn scheduled_job(id: u128, status: JobStatus, iter_num: u64, max_iterations: Option<u64>) -> Job {
    let task = make_task(uuid_of(id + 1), "done", TaskStatus::Completed, Vec::new());
    restore_job(
        uuid_of(id),
        status,
        vec![task],
        iter_num,
        max_iterations,
        None,
        uuid_of(id + 2),
        None,
        Some(Moment::now()),
        None,
        HashMap::new(),
    )
}

/// An iteration nobody finished is the work at hand: its tasks are what a caller takes up, and
/// no next iteration is on offer while it is open.
#[test]
fn an_open_iteration_steps_to_the_iteration_in_progress() {
    let job = scheduled_job(410, JobStatus::Running, 1, None);

    assert_eq!(job.pick_iteration_step(), IterationStep::IterationInProgress);
}

/// The budget outranks the moment, and the case that proves it is the one where both apply: a
/// job at its limit whose moment has passed must not be handed a next iteration.
#[test]
fn a_spent_iteration_budget_outranks_a_moment_already_reached() {
    let mut job = scheduled_job(420, JobStatus::Completed, 2, Some(2));
    job.set_next_start_at(from_now(-1));

    assert_eq!(job.pick_iteration_step(), IterationStep::IterationBudgetSpent);
}

/// The three cases around the moment itself: ahead of it the caller is told to wait for it,
/// at it and past it the next iteration is allowed.
#[test]
fn the_step_follows_the_due_moment_across_its_boundary() {
    let mut job = scheduled_job(430, JobStatus::Completed, 1, None);

    let ahead = from_now(60);
    job.set_next_start_at(ahead);
    assert_eq!(job.pick_iteration_step(), IterationStep::NextIterationDueAt(ahead));

    // Read back a nanosecond later at the earliest, which is what "at the moment" amounts to
    // for a rule comparing against the wall clock.
    job.set_next_start_at(Moment::now());
    assert_eq!(job.pick_iteration_step(), IterationStep::NextIterationReady);

    job.set_next_start_at(from_now(-1));
    assert_eq!(job.pick_iteration_step(), IterationStep::NextIterationReady);
}

/// A completed iteration whose next one is scheduled by the given interval, which is the only
/// way to reach a job carrying an interval no legal call sequence accepts.
fn job_with_iteration_interval(id: u128, iteration_interval: Duration) -> Job {
    let task = make_task(uuid_of(id + 1), "done", TaskStatus::Completed, Vec::new());
    restored_job(
        uuid_of(id),
        JobCode::new("job"),
        String::new(),
        1,
        JobStatus::Completed,
        vec![task],
        uuid_of(id + 2),
        Moment::now(),
        None,
        Some(Moment::now()),
        None,
        HashMap::new(),
        None,
        Some(iteration_interval),
        TaskLimits::default(),
    )
}

/// An interval too large to express as a moment leaves the next iteration unscheduled rather
/// than releasing it.
#[test]
fn an_interval_that_names_no_moment_steps_to_nothing_scheduled() {
    let job = job_with_iteration_interval(440, Duration::longest());

    assert_eq!(job.pick_iteration_step(), IterationStep::NextIterationUnscheduled);
}

/// The interval an iteration is counted from is the second way a moment can be out of range: it
/// converts, and the moment it names still lies past the range a moment has.
#[test]
fn an_interval_that_carries_the_moment_out_of_range_steps_to_nothing_scheduled() {
    let three_hundred_thousand_years = Duration::from_secs(300_000 * 365 * 24 * 60 * 60);
    assert!(
        TimeDelta::from_std(three_hundred_thousand_years).is_some(),
        "the case is about an interval the conversion accepts"
    );

    let job = job_with_iteration_interval(450, three_hundred_thousand_years);

    assert_eq!(job.pick_iteration_step(), IterationStep::NextIterationUnscheduled);
}

#[test]
fn test_next_iteration_resets_timestamps_and_next_start() {
    let old_task_id = uuid_of(36);
    let old_task = make_task(old_task_id, "old", TaskStatus::Completed, Vec::new());
    let job_id = uuid_of(37);
    let worker_id = uuid_of(38);

    let mut job = restore_job(
        job_id,
        JobStatus::Completed,
        vec![old_task],
        1,
        None,
        None,
        uuid_of(300),
        Some(from_now(-5)),
        Some(from_now(-1)),
        None,
        HashMap::new(),
    );
    job.set_next_start_at(from_now(-1));

    let new_task = TaskDefinition::new(TaskCode::new("new"), Duration::from_secs(5));
    job.next_iteration(&job_definition(vec![new_task]), worker_id).unwrap();

    assert_eq!(*job.id(), job_id);
    assert_eq!(job.updated_by_worker_id(), worker_id);
    assert!(job.running_at().is_none());
    assert!(job.completed_at().is_none());
    assert!(job.next_start_at().is_none());
}

#[test]
fn test_next_iteration_from_failed_status() {
    let old_task_id = uuid_of(40);
    let old_task = make_task(old_task_id, "old", TaskStatus::Failed, Vec::new());
    let job_id = uuid_of(41);
    let worker_id = uuid_of(42);

    let mut job = restore_job(
        job_id,
        JobStatus::Failed,
        vec![old_task],
        2,
        None,
        None,
        uuid_of(310),
        Some(from_now(-5)),
        Some(from_now(-1)),
        None,
        HashMap::new(),
    );

    let new_task = TaskDefinition::new(TaskCode::new("new"), Duration::from_secs(5));
    job.next_iteration(&job_definition(vec![new_task]), worker_id).unwrap();

    assert_eq!(*job.id(), job_id);
    assert_eq!(job.updated_by_worker_id(), worker_id);
    assert!(matches!(job.status(), JobStatus::Started));
}

#[test]
fn test_next_iteration_error_keeps_state_unchanged() {
    let old_task_id = uuid_of(43);
    let old_task = make_task(old_task_id, "old", TaskStatus::Completed, Vec::new());
    // Holds the next iteration back, which is what makes `next_iteration` fail here.
    let next_start_at = from_now(60);
    let metadata_key = "k".to_string();
    let metadata_value = serde_json::Value::String("v".to_string());
    let mut metadata = HashMap::new();
    metadata.insert(metadata_key.clone(), metadata_value.clone());

    let mut job = restored_job(
        uuid_of(44),
        JobCode::new("job"),
        String::new(),
        7,
        JobStatus::Completed,
        vec![old_task],
        uuid_of(311),
        from_now(-5),
        Some(from_now(-4)),
        Some(from_now(-3)),
        Some(next_start_at),
        metadata.clone(),
        Some(9),
        Some(Duration::from_secs(2)),
        TaskLimits {
            max_input_bytes: 4,
            max_output_bytes: 8,
        },
    );

    let old_started_at = job.started_at();
    let old_running_at = job.running_at();
    let old_completed_at = job.completed_at();
    let old_next_start_at = job.next_start_at();
    let old_updated_by_worker_id = job.updated_by_worker_id();
    let old_task_ids: Vec<Uuid> = job.tasks().iter().map(|task| *task.id()).collect();

    let err = job
        .next_iteration(&job_definition(vec![task_definition("new")]), uuid_of(312))
        .unwrap_err();
    assert!(matches!(err, JobError::Other(_)));

    assert!(matches!(job.status(), JobStatus::Completed));
    assert_eq!(job.iter_num(), 7);
    assert_eq!(job.started_at(), old_started_at);
    assert_eq!(job.running_at(), old_running_at);
    assert_eq!(job.completed_at(), old_completed_at);
    assert_eq!(job.next_start_at(), old_next_start_at);
    assert_eq!(job.updated_by_worker_id(), old_updated_by_worker_id);
    assert_eq!(job.metadata().get(&metadata_key), Some(&metadata_value));
    assert_eq!(
        job.tasks().iter().map(|task| *task.id()).collect::<Vec<_>>(),
        old_task_ids
    );
}

/// An initial task names its dependency by position, because identifiers are minted per
/// iteration; planning the iteration is what turns that position into an id.
#[test]
fn test_job_new_resolves_dependency_refs_into_task_ids() {
    let first = TaskDefinition::new(TaskCode::new("first"), Duration::from_secs(5));
    let second = TaskDefinition::new(TaskCode::new("second"), Duration::from_secs(5))
        .with_dependencies(vec![initial_task_ref(0)]);

    let job = Job::new(&job_definition(vec![first, second]), HashMap::new(), uuid_of(1)).unwrap();

    let first_id = *job.get_tasks_by_code(&TaskCode::new("first")).first().unwrap().id();
    let second_id = *job.get_tasks_by_code(&TaskCode::new("second")).first().unwrap().id();

    assert_eq!(job.get_task(&second_id).unwrap().depends_on(), &[first_id]);
    assert_eq!(*job.find_task(&second_id).unwrap().status(), TaskStatus::Blocked);
    assert_eq!(*job.find_task(&first_id).unwrap().status(), TaskStatus::Todo);
}

/// Every iteration mints fresh identifiers, so the same definition must resolve to the ids of
/// the tasks the *new* iteration created, never to the previous ones.
#[test]
fn test_next_iteration_resolves_dependency_refs_against_its_own_tasks() {
    let first = TaskDefinition::new(TaskCode::new("first"), Duration::from_secs(5));
    let second = TaskDefinition::new(TaskCode::new("second"), Duration::from_secs(5))
        .with_dependencies(vec![initial_task_ref(0)]);
    let job_def = job_definition(vec![first, second]);

    let mut job = Job::new(&job_def, HashMap::new(), uuid_of(1)).unwrap();
    let first_iteration_ids: Vec<Uuid> = job.tasks().iter().map(|task| *task.id()).collect();
    job = with_status(&job, JobStatus::Completed);

    job.next_iteration(&job_def, uuid_of(2)).unwrap();

    let first_id = *job.get_tasks_by_code(&TaskCode::new("first")).first().unwrap().id();
    let second_id = *job.get_tasks_by_code(&TaskCode::new("second")).first().unwrap().id();
    assert_eq!(job.get_task(&second_id).unwrap().depends_on(), &[first_id]);
    assert!(
        first_iteration_ids.iter().all(|id| *id != first_id),
        "the second iteration must resolve to its own tasks"
    );
}

#[test]
fn new_rejects_a_dependency_on_a_position_that_does_not_exist() {
    let only = TaskDefinition::new(TaskCode::new("only"), Duration::from_secs(5))
        .with_dependencies(vec![initial_task_ref(7)]);

    let error = JobDefinition::new(
        test_definition_id(),
        JobCode::new("job"),
        vec![(only, noop_executor())],
        Vec::new(),
        Vec::new(),
        TaskLimits::default(),
    )
    .err()
    .expect("an unresolvable reference must be refused");

    assert!(error.message().contains("which it does not have"), "got: {error:?}");
}

/// A runtime task addresses its dependencies by id; a position names a slot of the job
/// definition, which such a task is not part of.
#[test]
fn test_add_task_rejects_a_positional_dependency() {
    let root = make_task(uuid_of(41), "root", TaskStatus::Todo, Vec::new());
    let mut job = restore_job(
        uuid_of(403),
        JobStatus::Started,
        vec![root],
        1,
        Some(1),
        None,
        uuid_of(402),
        None,
        None,
        None,
        HashMap::new(),
    );

    let task_def = TaskDefinition::new(TaskCode::new("child"), Duration::from_secs(5))
        .with_dependencies(vec![initial_task_ref(0)]);
    let error = job.add_task(&task_def, uuid_of(403), None).unwrap_err();

    assert!(error.message().contains("initial task position"), "got: {error:?}");
}

#[test]
fn test_add_task_with_dependencies_ok() {
    let dep_id = uuid_of(40);
    let dep_task = make_task(dep_id, "dep", TaskStatus::Completed, Vec::new());
    let worker_id = uuid_of(400);
    let mut job = restore_job(
        uuid_of(401),
        JobStatus::Started,
        vec![dep_task],
        1,
        Some(1),
        None,
        worker_id,
        None,
        None,
        None,
        HashMap::new(),
    );

    let task_def = TaskDefinition::new(TaskCode::new("child"), Duration::from_secs(5))
        .with_input(vec![1, 2, 3])
        .with_dependencies(vec![TaskRef::created(dep_id)]);
    let task_id = job.add_task(&task_def, uuid_of(401), None).unwrap();

    let task = job.get_task(&task_id).unwrap();
    assert!(matches!(task.status(), TaskStatus::Blocked));
    assert_eq!(task.depends_on(), vec![dep_id]);
}

#[test]
fn test_add_task_missing_dependency() {
    let task = make_task(uuid_of(41), "root", TaskStatus::Todo, Vec::new());
    let worker_id = uuid_of(402);
    let mut job = restore_job(
        uuid_of(403),
        JobStatus::Started,
        vec![task],
        1,
        Some(1),
        None,
        worker_id,
        None,
        None,
        None,
        HashMap::new(),
    );

    let task_def = TaskDefinition::new(TaskCode::new("child"), Duration::from_secs(5))
        .with_dependencies(vec![TaskRef::created(uuid_of(999))]);
    let err = job.add_task(&task_def, uuid_of(403), None).unwrap_err();
    assert!(matches!(err, JobError::Other(_)));
}

/// A job holding one runnable task, for the rollback test below.
fn job_with_one_task(limits: TaskLimits) -> Job {
    let init_def = TaskDefinition::new(TaskCode::new("init"), Duration::from_secs(5));
    Job::new(
        &job_definition_with_limits(vec![init_def], limits),
        HashMap::new(),
        uuid_of(1900),
    )
    .expect("the test description must be legal")
}

/// What the failing task's execution created is dropped, and the task itself ends up failed.
#[test]
fn test_fail_task_execution_drops_the_tasks_that_execution_created() {
    let mut job = job_with_one_task(TaskLimits::default());
    let worker_id = uuid_of(1901);
    let task_id = *job.tasks().first().expect("the test job holds its initial task").id();
    job.start_task(&task_id, worker_id).unwrap();
    job.add_task(&task_definition("child"), worker_id, Some(task_id)).unwrap();
    assert_eq!(job.tasks().len(), 2);

    let rolled_back_tasks = job.fail_task(&task_id, "planning failed").unwrap();

    assert_eq!(
        rolled_back_tasks, 1,
        "the count is what the worker logs the rollback by"
    );
    assert_eq!(job.tasks().len(), 1);
    assert!(job.get_task(&task_id).unwrap().is_failed());
}

/// A task nobody's execution created stays: the rollback drops what one execution registered, not
/// whatever the iteration happens to hold. This is what keeps a task already in storage - which
/// comes back without a parent - out of a later execution's rollback.
#[test]
fn test_fail_task_execution_keeps_a_task_no_execution_claims() {
    let mut job = job_with_one_task(TaskLimits::default());
    let worker_id = uuid_of(1902);
    let task_id = *job.tasks().first().expect("the test job holds its initial task").id();
    job.start_task(&task_id, worker_id).unwrap();
    job.add_task(&task_definition("orphan"), worker_id, None).unwrap();

    let rolled_back_tasks = job.fail_task(&task_id, "planning failed").unwrap();

    assert_eq!(rolled_back_tasks, 0);
    assert_eq!(job.tasks().len(), 2);
    assert!(job.get_task(&task_id).unwrap().is_failed());
}

/// A refused failure leaves the iteration untouched: the caller is told nothing happened, so the
/// work its execution planned must still be there.
#[test]
fn test_fail_task_keeps_the_created_tasks_when_the_task_cannot_fail() {
    let mut job = job_with_one_task(TaskLimits::default());
    let worker_id = uuid_of(1903);
    let task_id = *job.tasks().first().expect("the test job holds its initial task").id();
    job.start_task(&task_id, worker_id).unwrap();
    let child_id = job.add_task(&task_definition("child"), worker_id, Some(task_id)).unwrap();
    job.complete_task(&task_id, Vec::new()).unwrap();

    let error = job.fail_task(&task_id, "planning failed").unwrap_err();

    assert!(error.message().contains("cannot fail task"), "got: {error:?}");
    assert!(
        job.get_task(&child_id).is_ok(),
        "the child must survive a failure that never happened"
    );
    assert!(job.get_task(&task_id).unwrap().is_completed());
}

/// Failing a task another execution owns rolls nothing back, which is what `JobHandle::fail_task`
/// promises an executor free to name any task of the iteration: what this execution registered
/// belongs to its own task and survives the other one's failure.
#[test]
fn test_fail_task_of_another_task_keeps_what_this_execution_created() {
    let mut job = job_with_one_task(TaskLimits::default());
    let worker_id = uuid_of(1906);
    let own_task_id = *job.tasks().first().expect("the test job holds its initial task").id();
    let other_task_id = job.add_task(&task_definition("other"), worker_id, None).unwrap();
    job.start_task(&own_task_id, worker_id).unwrap();
    job.start_task(&other_task_id, worker_id).unwrap();
    let created_id = job.add_task(&task_definition("child"), worker_id, Some(own_task_id)).unwrap();

    let rolled_back_tasks = job.fail_task(&other_task_id, "refused a task of another execution").unwrap();

    assert_eq!(rolled_back_tasks, 0);
    assert!(
        job.get_task(&created_id).is_ok(),
        "the task this execution created must survive the failure of a task it does not own"
    );
    assert!(job.get_task(&other_task_id).unwrap().is_failed());
}

/// The ordinary end of a failed execution: its task was left open, so the failure is recorded on
/// it and what it created goes with it.
#[test]
fn test_task_execution_failed_fails_a_task_its_executor_left_open() {
    let mut job = job_with_one_task(TaskLimits::default());
    let worker_id = uuid_of(1910);
    let task_id = *job.tasks().first().expect("the test job holds its initial task").id();
    job.start_task(&task_id, worker_id).unwrap();
    job.add_task(&task_definition("child"), worker_id, Some(task_id)).unwrap();

    let rolled_back_tasks = job
        .record_task_execution_failure(&task_id, "executor returned an error")
        .unwrap();

    assert_eq!(rolled_back_tasks, 1);
    assert_eq!(job.tasks().len(), 1);
    assert_eq!(
        job.find_task(&task_id).unwrap().resolution_reason(),
        "executor returned an error"
    );
}

/// A refused transition must not cost the whole save: an executor that completed
/// its own task and then ended in error leaves a completed task, and the result it wrote - down
/// to the work it planned afterwards - is what the caller goes on to persist.
#[test]
fn test_task_execution_failed_keeps_a_task_its_executor_completed() {
    let mut job = job_with_one_task(TaskLimits::default());
    let worker_id = uuid_of(1911);
    let task_id = *job.tasks().first().expect("the test job holds its initial task").id();
    job.start_task(&task_id, worker_id).unwrap();
    job.complete_task(&task_id, b"result".to_vec()).unwrap();
    let created_id = job
        .add_task(&task_definition("continuation"), worker_id, Some(task_id))
        .unwrap();

    let rolled_back_tasks = job
        .record_task_execution_failure(&task_id, "executor returned an error")
        .unwrap();

    assert_eq!(rolled_back_tasks, 0);
    let task = job.find_task(&task_id).unwrap();
    assert!(task.is_completed());
    assert_eq!(task.output(), b"result");
    assert!(
        job.get_task(&created_id).is_ok(),
        "a completed task rolled nothing back, so what it planned stays"
    );
}

/// An executor that failed its own task and then returned the error too must not have its reason
/// replaced by the caller's: the rollback already ran with the reason the executor gave.
#[test]
fn test_task_execution_failed_keeps_the_reason_its_executor_failed_the_task_with() {
    let mut job = job_with_one_task(TaskLimits::default());
    let worker_id = uuid_of(1912);
    let task_id = *job.tasks().first().expect("the test job holds its initial task").id();
    job.start_task(&task_id, worker_id).unwrap();
    job.add_task(&task_definition("child"), worker_id, Some(task_id)).unwrap();
    job.fail_task(&task_id, "rejected by executor").unwrap();

    let rolled_back_tasks = job
        .record_task_execution_failure(&task_id, "executor returned an error")
        .unwrap();

    assert_eq!(rolled_back_tasks, 0, "the rollback ran with the failure itself");
    assert_eq!(job.find_task(&task_id).unwrap().resolution_reason(), "rejected by executor");
    assert_eq!(job.tasks().len(), 1);
}

/// What the rollback would otherwise lose to a call order: a task registered after the
/// execution failed its own task is not covered by the rollback that already ran, so it would be
/// the one part of a failed execution outliving it. The registration is refused instead.
#[test]
fn test_add_task_by_an_execution_that_failed_its_own_task_is_refused() {
    let mut job = job_with_one_task(TaskLimits::default());
    let worker_id = uuid_of(1907);
    let task_id = *job.tasks().first().expect("the test job holds its initial task").id();
    job.start_task(&task_id, worker_id).unwrap();
    job.fail_task(&task_id, "planning refused the work").unwrap();

    let error = job.add_task(&task_definition("late"), worker_id, Some(task_id)).unwrap_err();

    assert!(error.message().contains("rolled back"), "got: {error:?}");
    assert_eq!(
        job.tasks().len(),
        1,
        "a refused registration must not reach the iteration"
    );
}

/// The other resolution is not refused: an execution that completed its own task rolled nothing
/// back, so the work it plans afterwards has nothing to outlive - and closing the task before
/// planning the continuation is a documented order.
#[test]
fn test_add_task_by_an_execution_that_completed_its_own_task_is_accepted() {
    let mut job = job_with_one_task(TaskLimits::default());
    let worker_id = uuid_of(1909);
    let task_id = *job.tasks().first().expect("the test job holds its initial task").id();
    job.start_task(&task_id, worker_id).unwrap();
    job.complete_task(&task_id, Vec::new()).unwrap();

    let created_id = job
        .add_task(&task_definition("continuation"), worker_id, Some(task_id))
        .expect("an execution that completed its own task may plan the work it hands over");

    assert!(job.get_task(&created_id).is_ok());
    assert_eq!(job.tasks().len(), 2);
}

/// A task nobody's execution creates is unaffected by the rule above: an iteration is planned
/// from tasks that belong to no open execution, and those are added whatever the tasks around
/// them are doing.
#[test]
fn test_add_task_without_a_creating_execution_is_accepted_after_a_task_failed() {
    let mut job = job_with_one_task(TaskLimits::default());
    let worker_id = uuid_of(1908);
    let task_id = *job.tasks().first().expect("the test job holds its initial task").id();
    job.start_task(&task_id, worker_id).unwrap();
    job.fail_task(&task_id, "planning failed").unwrap();

    job.add_task(&task_definition("orphan"), worker_id, None)
        .expect("a task claimed by no execution must be accepted");

    assert_eq!(job.tasks().len(), 2);
}

#[test]
fn test_fail_task_for_a_task_the_iteration_does_not_hold_changes_nothing() {
    let mut job = job_with_one_task(TaskLimits::default());
    let worker_id = uuid_of(1904);
    let task_id = *job.tasks().first().expect("the test job holds its initial task").id();
    job.start_task(&task_id, worker_id).unwrap();
    job.add_task(&task_definition("child"), worker_id, Some(task_id)).unwrap();

    let error = job.fail_task(&uuid_of(1905), "planning failed").unwrap_err();

    assert!(matches!(error, JobError::TaskNotFound), "got: {error:?}");
    assert_eq!(job.tasks().len(), 2);
}

#[test]
fn test_start_task_ok() {
    let task_id = uuid_of(50);
    let task = make_task(task_id, "todo", TaskStatus::Todo, Vec::new());
    let worker_id = uuid_of(500);
    let mut job = restore_job(
        uuid_of(501),
        JobStatus::Started,
        vec![task],
        1,
        Some(1),
        None,
        worker_id,
        None,
        None,
        None,
        HashMap::new(),
    );

    let worker_id = uuid_of(501);
    job.start_task(&task_id, worker_id).unwrap();
    let task = job.get_task(&task_id).unwrap();
    assert!(matches!(task.status(), TaskStatus::Started));
    assert_eq!(task.processing_by_worker(), Some(worker_id));
    assert_eq!(job.updated_by_worker_id(), worker_id);
    assert_eq!(task.attempt(), 1);
}

#[test]
fn test_start_task_not_found() {
    let task = make_task(uuid_of(51), "todo", TaskStatus::Todo, Vec::new());
    let worker_id = uuid_of(502);
    let mut job = restore_job(
        uuid_of(503),
        JobStatus::Started,
        vec![task],
        1,
        Some(1),
        None,
        worker_id,
        None,
        None,
        None,
        HashMap::new(),
    );

    let err = job.start_task(&uuid_of(999), uuid_of(503)).unwrap_err();
    assert!(matches!(err, JobError::TaskNotFound));
}

#[test]
fn test_start_task_worker_mismatch() {
    let task_id = uuid_of(52);
    let task = restored_task(
        task_id,
        TaskCode::new("started"),
        TaskStatus::Started,
        Some(uuid_of(600)),
        uuid_of(601),
        seconds(5),
        seconds(300),
        Some(Moment::now()),
        None,
        Some(from_now(60)),
        None,
        1,
        DEFAULT_MAX_ATTEMPTS,
        Vec::new(),
        Vec::new(),
        String::new(),
        Vec::new(),
    );
    let worker_id = uuid_of(504);
    let mut job = restore_job(
        uuid_of(505),
        JobStatus::Started,
        vec![task],
        1,
        Some(1),
        None,
        worker_id,
        None,
        None,
        None,
        HashMap::new(),
    );

    let err = job.start_task(&task_id, uuid_of(602)).unwrap_err();
    assert!(matches!(err, JobError::TaskWorkerMismatch));
}

#[test]
fn test_complete_task_ok() {
    let task_id = uuid_of(60);
    let task = make_task(task_id, "todo", TaskStatus::Todo, Vec::new());
    let worker_id = uuid_of(600);
    let mut job = restore_job(
        uuid_of(601),
        JobStatus::Started,
        vec![task],
        1,
        Some(1),
        None,
        worker_id,
        None,
        None,
        None,
        HashMap::new(),
    );

    job.start_task(&task_id, uuid_of(601)).unwrap();
    job.complete_task(&task_id, vec![1, 2]).unwrap();
    let task = job.get_task(&task_id).unwrap();
    assert!(matches!(task.status(), TaskStatus::Completed));
    assert_eq!(task.output(), vec![1, 2]);
    assert!(task.completed_at().is_some());
}

#[test]
fn test_complete_task_wrong_status() {
    let task_id = uuid_of(61);
    let task = make_task(task_id, "todo", TaskStatus::Todo, Vec::new());
    let worker_id = uuid_of(602);
    let mut job = restore_job(
        uuid_of(603),
        JobStatus::Started,
        vec![task],
        1,
        Some(1),
        None,
        worker_id,
        None,
        None,
        None,
        HashMap::new(),
    );

    let err = job.complete_task(&task_id, vec![1]).unwrap_err();
    assert!(matches!(err, JobError::Other(_)));
}

#[test]
fn test_work_ok() {
    let task = make_task(uuid_of(80), "todo", TaskStatus::Todo, Vec::new());
    let worker_id = uuid_of(800);
    let mut job = restore_job(
        uuid_of(801),
        JobStatus::Started,
        vec![task],
        1,
        Some(1),
        None,
        worker_id,
        None,
        None,
        None,
        HashMap::new(),
    );

    let worker_id = uuid_of(801);
    job.work(&worker_id).unwrap();
    assert!(matches!(job.status(), JobStatus::Running));
    assert_eq!(job.updated_by_worker_id(), worker_id);
    assert!(job.running_at().is_some());
}

#[test]
fn test_work_invalid_transition() {
    let task = make_task(uuid_of(81), "done", TaskStatus::Completed, Vec::new());
    let mut job = restore_job(
        uuid_of(82),
        JobStatus::Completed,
        vec![task],
        1,
        None,
        None,
        uuid_of(802),
        None,
        Some(Moment::now()),
        None,
        HashMap::new(),
    );

    let err = job.work(&uuid_of(803)).unwrap_err();
    assert!(matches!(err, JobError::InvalidStatusTransition { .. }));
}

#[test]
fn test_try_to_complete_ok() {
    let task = make_task(uuid_of(90), "done", TaskStatus::Completed, Vec::new());
    let mut job = restore_job(
        uuid_of(91),
        JobStatus::Running,
        vec![task],
        1,
        None,
        None,
        uuid_of(900),
        Some(Moment::now()),
        None,
        None,
        HashMap::new(),
    );

    let worker_id = uuid_of(901);
    let completed = job.try_to_complete(&worker_id).unwrap();
    assert!(completed);
    assert!(matches!(job.status(), JobStatus::Completed));
    assert_eq!(job.updated_by_worker_id(), worker_id);
    assert!(job.completed_at().is_some());
}

#[test]
fn test_try_to_complete_not_ready() {
    let task = make_task(uuid_of(92), "todo", TaskStatus::Todo, Vec::new());
    let mut job = restore_job(
        uuid_of(93),
        JobStatus::Running,
        vec![task],
        1,
        None,
        None,
        uuid_of(902),
        Some(Moment::now()),
        None,
        None,
        HashMap::new(),
    );

    let completed = job.try_to_complete(&uuid_of(903)).unwrap();
    assert!(!completed);
    assert!(matches!(job.status(), JobStatus::Running));
    assert!(job.completed_at().is_none());
}

#[test]
fn test_try_to_complete_invalid_transition() {
    let task = make_task(uuid_of(94), "done", TaskStatus::Completed, Vec::new());
    let mut job = restore_job(
        uuid_of(95),
        JobStatus::Started,
        vec![task],
        1,
        None,
        None,
        uuid_of(904),
        None,
        None,
        None,
        HashMap::new(),
    );

    let err = job.try_to_complete(&uuid_of(905)).unwrap_err();
    assert!(matches!(err, JobError::InvalidStatusTransition { .. }));
}

#[test]
fn test_fail_ok() {
    let task = make_task(uuid_of(100), "todo", TaskStatus::Todo, Vec::new());
    let mut job = restore_job(
        uuid_of(101),
        JobStatus::Running,
        vec![task],
        1,
        None,
        None,
        uuid_of(1000),
        Some(Moment::now()),
        None,
        None,
        HashMap::new(),
    );

    let worker_id = uuid_of(1001);
    job.fail(&worker_id).unwrap();
    assert!(matches!(job.status(), JobStatus::Failed));
    assert_eq!(job.updated_by_worker_id(), worker_id);
    assert!(job.completed_at().is_some());
}

#[test]
fn test_fail_invalid_transition() {
    let task = make_task(uuid_of(102), "done", TaskStatus::Completed, Vec::new());
    let mut job = restore_job(
        uuid_of(103),
        JobStatus::Completed,
        vec![task],
        1,
        None,
        None,
        uuid_of(1002),
        None,
        Some(Moment::now()),
        None,
        HashMap::new(),
    );

    let err = job.fail(&uuid_of(1003)).unwrap_err();
    assert!(matches!(err, JobError::InvalidStatusTransition { .. }));
}

#[test]
fn test_merge_with_picked_task_ok() {
    let task_id = uuid_of(1050);
    let worker_id = uuid_of(1051);
    let task = make_task(task_id, "todo", TaskStatus::Todo, Vec::new());
    let mut saved_job = restore_job(
        uuid_of(1052),
        JobStatus::Started,
        vec![task],
        1,
        None,
        None,
        uuid_of(1053),
        None,
        None,
        None,
        HashMap::new(),
    );

    let mut worker_job = saved_job.clone();
    let picked = worker_job.pick_task_to_execute(&worker_id).unwrap();
    assert_eq!(picked, TaskPickup::Ready(task_id));
    worker_job.start_task(&task_id, worker_id).unwrap();

    saved_job.merge_with_picked_task(&worker_job, &worker_id, &task_id).unwrap();

    let merged_task = saved_job.get_task(&task_id).unwrap();
    assert!(matches!(saved_job.status(), JobStatus::Running));
    assert!(saved_job.running_at().is_some());
    assert!(matches!(merged_task.status(), TaskStatus::Started));
    assert_eq!(merged_task.processing_by_worker(), Some(worker_id));
    assert_eq!(merged_task.attempt(), 1);
}

#[test]
fn test_merge_with_picked_task_worker_mismatch() {
    let task_id = uuid_of(1060);
    let worker_id = uuid_of(1061);
    let task = make_task(task_id, "todo", TaskStatus::Todo, Vec::new());
    let mut worker_job = restore_job(
        uuid_of(1062),
        JobStatus::Started,
        vec![task],
        1,
        None,
        None,
        uuid_of(1063),
        None,
        None,
        None,
        HashMap::new(),
    );
    let picked = worker_job.pick_task_to_execute(&worker_id).unwrap();
    assert_eq!(picked, TaskPickup::Ready(task_id));
    worker_job.start_task(&task_id, worker_id).unwrap();

    let started_by_other = restored_task(
        task_id,
        TaskCode::new("todo"),
        TaskStatus::Started,
        Some(uuid_of(1069)),
        uuid_of(1064),
        seconds(5),
        seconds(300),
        Some(Moment::now()),
        None,
        Some(from_now(60)),
        None,
        1,
        DEFAULT_MAX_ATTEMPTS,
        Vec::new(),
        Vec::new(),
        String::new(),
        Vec::new(),
    );
    let mut saved_job = restore_job(
        *worker_job.id(),
        JobStatus::Running,
        vec![started_by_other],
        1,
        None,
        None,
        uuid_of(1065),
        Some(Moment::now()),
        None,
        None,
        HashMap::new(),
    );

    let err = saved_job.merge_with_picked_task(&worker_job, &worker_id, &task_id).unwrap_err();
    assert!(matches!(err, JobError::TaskWorkerMismatch));
}

/// The rival that picked the same task finished it, closed the iteration and opened the next
/// one, so the state this worker re-read after its conflict is an iteration whose tasks carry
/// other identifiers. The refusal keeps a task of the previous iteration out of the new one.
#[test]
fn test_merge_with_picked_task_refuses_a_task_the_stored_iteration_does_not_hold() {
    let task_id = uuid_of(1091);
    let worker_id = uuid_of(1092);
    let task = make_task(task_id, "shift", TaskStatus::Todo, Vec::new());
    let mut worker_job = restore_job(
        uuid_of(1093),
        JobStatus::Started,
        vec![task],
        1,
        None,
        None,
        uuid_of(1094),
        None,
        None,
        None,
        HashMap::new(),
    );
    let picked = worker_job.pick_task_to_execute(&worker_id).unwrap();
    assert_eq!(picked, TaskPickup::Ready(task_id));
    worker_job.start_task(&task_id, worker_id).unwrap();

    let next_iteration_task_id = uuid_of(1095);
    let mut saved_job = restore_job(
        *worker_job.id(),
        JobStatus::Started,
        vec![make_task(next_iteration_task_id, "shift", TaskStatus::Todo, Vec::new())],
        2,
        None,
        None,
        uuid_of(1096),
        None,
        None,
        None,
        HashMap::new(),
    );

    let err = saved_job.merge_with_picked_task(&worker_job, &worker_id, &task_id).unwrap_err();

    assert!(matches!(err, JobError::TaskNotFound));
    assert!(!saved_job.find_task(&task_id).is_ok());
    assert_eq!(saved_job.tasks().len(), 1);
}

#[test]
fn test_merge_with_picked_task_idempotent() {
    let task_id = uuid_of(1070);
    let worker_id = uuid_of(1071);
    let task = make_task(task_id, "todo", TaskStatus::Todo, Vec::new());
    let mut saved_job = restore_job(
        uuid_of(1072),
        JobStatus::Started,
        vec![task],
        1,
        None,
        None,
        uuid_of(1073),
        None,
        None,
        None,
        HashMap::new(),
    );
    let mut worker_job = saved_job.clone();
    let picked = worker_job.pick_task_to_execute(&worker_id).unwrap();
    assert_eq!(picked, TaskPickup::Ready(task_id));
    worker_job.start_task(&task_id, worker_id).unwrap();

    saved_job.merge_with_picked_task(&worker_job, &worker_id, &task_id).unwrap();
    let first_task = saved_job.get_task(&task_id).unwrap();
    let first_attempt = first_task.attempt();
    let first_deadline = first_task.deadline_at();

    saved_job.merge_with_picked_task(&worker_job, &worker_id, &task_id).unwrap();
    let second_task = saved_job.get_task(&task_id).unwrap();

    assert_eq!(first_attempt, second_task.attempt());
    assert_eq!(first_deadline, second_task.deadline_at());
    assert_eq!(second_task.attempt(), 1);
}

#[test]
fn test_merge_with_picked_task_different_job_id() {
    let task_id = uuid_of(1080);
    let worker_id = uuid_of(1081);
    let task = make_task(task_id, "todo", TaskStatus::Todo, Vec::new());
    let mut saved_job = restore_job(
        uuid_of(1082),
        JobStatus::Started,
        vec![task.clone()],
        1,
        None,
        None,
        uuid_of(1083),
        None,
        None,
        None,
        HashMap::new(),
    );
    let mut worker_job = restore_job(
        uuid_of(1084),
        JobStatus::Started,
        vec![task],
        1,
        None,
        None,
        uuid_of(1085),
        None,
        None,
        None,
        HashMap::new(),
    );

    let picked = worker_job.pick_task_to_execute(&worker_id).unwrap();
    assert_eq!(picked, TaskPickup::Ready(task_id));
    worker_job.start_task(&task_id, worker_id).unwrap();

    let err = saved_job.merge_with_picked_task(&worker_job, &worker_id, &task_id).unwrap_err();
    assert!(matches!(err, JobError::Other(_)));
}

#[test]
fn test_merge_with_picked_task_worker_task_not_started() {
    let task_id = uuid_of(1086);
    let worker_id = uuid_of(1087);
    let task = make_task(task_id, "todo", TaskStatus::Todo, Vec::new());
    let mut saved_job = restore_job(
        uuid_of(1088),
        JobStatus::Started,
        vec![task.clone()],
        1,
        None,
        None,
        uuid_of(1089),
        None,
        None,
        None,
        HashMap::new(),
    );
    let mut worker_job = restore_job(
        *saved_job.id(),
        JobStatus::Started,
        vec![task],
        1,
        None,
        None,
        uuid_of(1090),
        None,
        None,
        None,
        HashMap::new(),
    );

    let picked = worker_job.pick_task_to_execute(&worker_id).unwrap();
    assert_eq!(picked, TaskPickup::Ready(task_id));

    let err = saved_job.merge_with_picked_task(&worker_job, &worker_id, &task_id).unwrap_err();
    assert!(matches!(err, JobError::Other(_)));
}

/// A start cannot reopen an iteration that already ended. No worker sequence reaches this
/// state: an iteration ends as `Failed` only when nothing is pickable, and a task pickable in
/// this worker's copy is pickable for the rival too, while a task the rival owns is refused
/// earlier by `check_task_stolen`. The stored state is therefore restored directly, and the
/// test guards the contract of the method, as `test_start_task_worker_mismatch` does for
/// `Task::start`.
#[test]
fn test_merge_with_picked_task_refuses_a_status_the_stored_iteration_cannot_leave() {
    let task_id = uuid_of(1097);
    let worker_id = uuid_of(1098);
    let task = make_task(task_id, "shift", TaskStatus::Todo, Vec::new());
    let mut worker_job = restore_job(
        uuid_of(1099),
        JobStatus::Started,
        vec![task.clone()],
        1,
        None,
        None,
        uuid_of(1100),
        None,
        None,
        None,
        HashMap::new(),
    );
    let picked = worker_job.pick_task_to_execute(&worker_id).unwrap();
    assert_eq!(picked, TaskPickup::Ready(task_id));
    worker_job.start_task(&task_id, worker_id).unwrap();

    let mut saved_job = restore_job(
        *worker_job.id(),
        JobStatus::Failed,
        vec![task],
        1,
        None,
        None,
        uuid_of(1101),
        Some(Moment::now()),
        Some(Moment::now()),
        None,
        HashMap::new(),
    );

    let err = saved_job.merge_with_picked_task(&worker_job, &worker_id, &task_id).unwrap_err();

    assert!(matches!(err, JobError::Other(_)));
    assert!(matches!(saved_job.status(), JobStatus::Failed));
    let stored_task = saved_job.get_task(&task_id).unwrap();
    assert_eq!(*stored_task.status(), TaskStatus::Todo);
    assert_eq!(stored_task.processing_by_worker(), None);
}

#[test]
fn test_merge_with_processed_task_different_id() {
    let task = make_task(uuid_of(110), "todo", TaskStatus::Todo, Vec::new());
    let mut job = restore_job(
        uuid_of(111),
        JobStatus::Running,
        vec![task.clone()],
        1,
        None,
        None,
        uuid_of(1100),
        Some(Moment::now()),
        None,
        None,
        HashMap::new(),
    );
    let worker_job = restore_job(
        uuid_of(112),
        JobStatus::Running,
        vec![task],
        1,
        None,
        None,
        uuid_of(1101),
        Some(Moment::now()),
        None,
        None,
        HashMap::new(),
    );

    let err = job
        .merge_with_processed_task(&worker_job, &uuid_of(1101), &uuid_of(110))
        .unwrap_err();
    assert!(matches!(err, JobError::Other(_)));
}

#[test]
fn test_merge_with_processed_task_worker_mismatch() {
    let task_id = uuid_of(120);
    let task = restored_task(
        task_id,
        TaskCode::new("started"),
        TaskStatus::Started,
        Some(uuid_of(1200)),
        uuid_of(1201),
        seconds(5),
        seconds(300),
        Some(Moment::now()),
        None,
        Some(from_now(60)),
        None,
        1,
        DEFAULT_MAX_ATTEMPTS,
        Vec::new(),
        Vec::new(),
        String::new(),
        Vec::new(),
    );
    let mut job = restore_job(
        uuid_of(121),
        JobStatus::Running,
        vec![task],
        1,
        None,
        None,
        uuid_of(1202),
        Some(Moment::now()),
        None,
        None,
        HashMap::new(),
    );
    let worker_job = job.clone();

    let err = job
        .merge_with_processed_task(&worker_job, &uuid_of(1203), &task_id)
        .unwrap_err();
    assert!(matches!(err, JobError::TaskWorkerMismatch));
}

/// While this worker ran its task a rival took it over on expiry, finished the iteration and
/// opened the next one, so the state re-read after the conflict holds no task with this
/// identifier. The absence guard alone would not stop the merge - every task of the previous
/// iteration is absent from the new one and would look newly created - so the refusal has to
/// come from the check that runs before the merge loop.
#[test]
fn test_merge_with_processed_task_refuses_a_task_the_stored_iteration_does_not_hold() {
    let worker_id = uuid_of(1380);
    let processed_task_id = uuid_of(1381);
    let created_task_id = uuid_of(1382);
    let next_iteration_task_id = uuid_of(1383);

    let mut saved_job = restore_job(
        uuid_of(1384),
        JobStatus::Started,
        vec![make_task(next_iteration_task_id, "plan", TaskStatus::Todo, Vec::new())],
        2,
        None,
        None,
        uuid_of(1385),
        None,
        None,
        None,
        HashMap::new(),
    );

    let processed_task = restored_task(
        processed_task_id,
        TaskCode::new("shift"),
        TaskStatus::Completed,
        Some(worker_id),
        worker_id,
        seconds(60),
        seconds(300),
        Some(Moment::now()),
        Some(Moment::now()),
        Some(from_now(60)),
        None,
        1,
        DEFAULT_MAX_ATTEMPTS,
        Vec::new(),
        b"shifted".to_vec(),
        String::new(),
        Vec::new(),
    );
    // Created by this worker and owned by nobody: the merge loop would carry it over, which is
    // what makes the refusal observable on the task count below.
    let created_task = restored_task(
        created_task_id,
        TaskCode::new("shift"),
        TaskStatus::Todo,
        None,
        worker_id,
        seconds(60),
        seconds(300),
        None,
        None,
        None,
        None,
        0,
        DEFAULT_MAX_ATTEMPTS,
        Vec::new(),
        Vec::new(),
        String::new(),
        Vec::new(),
    );
    let worker_job = restore_job(
        *saved_job.id(),
        JobStatus::Running,
        vec![processed_task, created_task],
        1,
        None,
        None,
        worker_id,
        Some(Moment::now()),
        None,
        None,
        HashMap::new(),
    );

    let err = saved_job
        .merge_with_processed_task(&worker_job, &worker_id, &processed_task_id)
        .unwrap_err();

    assert!(matches!(err, JobError::TaskNotFound));
    assert_eq!(saved_job.tasks().len(), 1);
    assert!(saved_job.find_task(&next_iteration_task_id).is_ok());
}

#[test]
fn test_merge_with_processed_task_ok() {
    let base_task_id = uuid_of(130);
    let base_task = make_task(base_task_id, "base", TaskStatus::Started, Vec::new());

    let mut job = restore_job(
        uuid_of(131),
        JobStatus::Running,
        vec![base_task],
        1,
        None,
        None,
        uuid_of(1300),
        Some(Moment::now()),
        None,
        None,
        HashMap::new(),
    );

    let worker_id = uuid_of(1301);
    let created_task_id = uuid_of(132);
    let created_task = restored_task(
        created_task_id,
        TaskCode::new("created"),
        TaskStatus::Todo,
        None,
        worker_id,
        seconds(5),
        seconds(300),
        None,
        None,
        None,
        None,
        0,
        DEFAULT_MAX_ATTEMPTS,
        Vec::new(),
        Vec::new(),
        String::new(),
        Vec::new(),
    );
    let processed_task_id = uuid_of(133);
    let processed_task = restored_task(
        processed_task_id,
        TaskCode::new("processed"),
        TaskStatus::Started,
        Some(worker_id),
        uuid_of(1302),
        seconds(5),
        seconds(300),
        Some(Moment::now()),
        None,
        Some(from_now(60)),
        None,
        1,
        DEFAULT_MAX_ATTEMPTS,
        Vec::new(),
        Vec::new(),
        String::new(),
        Vec::new(),
    );
    let other_task_id = uuid_of(134);
    let other_task = restored_task(
        other_task_id,
        TaskCode::new("other"),
        TaskStatus::Todo,
        None,
        uuid_of(1303),
        seconds(5),
        seconds(300),
        None,
        None,
        None,
        None,
        0,
        DEFAULT_MAX_ATTEMPTS,
        Vec::new(),
        Vec::new(),
        String::new(),
        Vec::new(),
    );

    let worker_job = restore_job(
        *job.id(),
        JobStatus::Completed,
        vec![created_task, processed_task, other_task],
        1,
        None,
        None,
        worker_id,
        Some(Moment::now()),
        Some(Moment::now()),
        None,
        HashMap::new(),
    );

    job.merge_with_processed_task(&worker_job, &worker_id, &base_task_id).unwrap();

    assert!(matches!(job.status(), JobStatus::Completed));
    assert!(job.completed_at().is_some());
    assert!(job.running_at().is_some());
    assert!(job.find_task(&base_task_id).is_ok());
    assert!(job.find_task(&created_task_id).is_ok());
    assert!(job.find_task(&processed_task_id).is_ok());
    assert!(!job.find_task(&other_task_id).is_ok());
}

/// A task this worker created in an earlier execution has moved on in the stored state, and the
/// worker's copy still holds it as it was read. Merging that copy back would resurrect a task
/// another worker already completed, and the next poll would execute it a second time.
#[test]
fn test_merge_with_processed_task_keeps_a_sibling_completed_by_another_worker() {
    let worker_id = uuid_of(1360);
    let other_worker_id = uuid_of(1361);
    let processed_task_id = uuid_of(1362);
    let sibling_task_id = uuid_of(1363);

    let sibling_in_storage = restored_task(
        sibling_task_id,
        TaskCode::new("shift"),
        TaskStatus::Completed,
        Some(other_worker_id),
        worker_id,
        seconds(60),
        seconds(300),
        Some(Moment::now()),
        Some(Moment::now()),
        Some(from_now(60)),
        None,
        1,
        DEFAULT_MAX_ATTEMPTS,
        Vec::new(),
        b"shifted".to_vec(),
        String::new(),
        Vec::new(),
    );
    let mut job = restore_job(
        uuid_of(1364),
        JobStatus::Running,
        vec![
            make_task(processed_task_id, "shift", TaskStatus::Started, Vec::new()),
            sibling_in_storage,
        ],
        1,
        None,
        None,
        other_worker_id,
        Some(Moment::now()),
        None,
        None,
        HashMap::new(),
    );

    // The copy this worker read before the other one took the sibling: created by this worker
    // while it ran the planning task, and untouched since.
    let sibling_in_worker_copy = restored_task(
        sibling_task_id,
        TaskCode::new("shift"),
        TaskStatus::Todo,
        None,
        worker_id,
        seconds(60),
        seconds(300),
        None,
        None,
        None,
        None,
        0,
        DEFAULT_MAX_ATTEMPTS,
        Vec::new(),
        Vec::new(),
        String::new(),
        Vec::new(),
    );
    let processed_task = restored_task(
        processed_task_id,
        TaskCode::new("shift"),
        TaskStatus::Completed,
        Some(worker_id),
        worker_id,
        seconds(60),
        seconds(300),
        Some(Moment::now()),
        Some(Moment::now()),
        Some(from_now(60)),
        None,
        1,
        DEFAULT_MAX_ATTEMPTS,
        Vec::new(),
        b"shifted".to_vec(),
        String::new(),
        Vec::new(),
    );
    let worker_job = restore_job(
        *job.id(),
        JobStatus::Running,
        vec![processed_task, sibling_in_worker_copy],
        1,
        None,
        None,
        worker_id,
        Some(Moment::now()),
        None,
        None,
        HashMap::new(),
    );

    job.merge_with_processed_task(&worker_job, &worker_id, &processed_task_id)
        .unwrap();

    let sibling = job.get_task(&sibling_task_id).unwrap();
    assert_eq!(*sibling.status(), TaskStatus::Completed);
    assert_eq!(sibling.processing_by_worker(), Some(other_worker_id));
    assert!(job.all_tasks_completed(), "the merge must leave every task completed");
}

#[test]
fn test_merge_with_processed_task_copies_next_start_at_from_worker() {
    let task_id = uuid_of(1340);
    let worker_id = uuid_of(1341);
    let mut job = restore_job(
        uuid_of(1342),
        JobStatus::Running,
        vec![make_task(task_id, "base", TaskStatus::Started, Vec::new())],
        1,
        None,
        None,
        worker_id,
        Some(Moment::now()),
        None,
        Some(from_now(-10)),
        HashMap::new(),
    );

    let next_start_at = from_now(60);
    let worker_job = restore_job(
        *job.id(),
        JobStatus::Completed,
        vec![restored_task(
            task_id,
            TaskCode::new("base"),
            TaskStatus::Started,
            Some(worker_id),
            uuid_of(1343),
            seconds(5),
            seconds(300),
            Some(Moment::now()),
            None,
            Some(from_now(60)),
            None,
            1,
            DEFAULT_MAX_ATTEMPTS,
            Vec::new(),
            Vec::new(),
            String::new(),
            Vec::new(),
        )],
        1,
        None,
        None,
        worker_id,
        Some(Moment::now()),
        Some(Moment::now()),
        Some(next_start_at),
        HashMap::new(),
    );

    job.merge_with_processed_task(&worker_job, &worker_id, &task_id).unwrap();
    assert_eq!(job.next_start_at(), Some(next_start_at));
}

#[test]
fn test_merge_with_processed_task_keeps_saved_next_start_at_when_worker_missing() {
    let task_id = uuid_of(1350);
    let worker_id = uuid_of(1351);
    let saved_next_start_at = from_now(30);
    let mut job = restore_job(
        uuid_of(1352),
        JobStatus::Running,
        vec![make_task(task_id, "base", TaskStatus::Started, Vec::new())],
        1,
        None,
        None,
        worker_id,
        Some(Moment::now()),
        None,
        Some(saved_next_start_at),
        HashMap::new(),
    );

    let worker_job = restore_job(
        *job.id(),
        JobStatus::Completed,
        vec![restored_task(
            task_id,
            TaskCode::new("base"),
            TaskStatus::Started,
            Some(worker_id),
            uuid_of(1353),
            seconds(5),
            seconds(300),
            Some(Moment::now()),
            None,
            Some(from_now(60)),
            None,
            1,
            DEFAULT_MAX_ATTEMPTS,
            Vec::new(),
            Vec::new(),
            String::new(),
            Vec::new(),
        )],
        1,
        None,
        None,
        worker_id,
        Some(Moment::now()),
        Some(Moment::now()),
        None,
        HashMap::new(),
    );

    job.merge_with_processed_task(&worker_job, &worker_id, &task_id).unwrap();
    assert_eq!(job.next_start_at(), Some(saved_next_start_at));
}

#[test]
fn test_merge_with_processed_task_invalid_transition() {
    let task_id = uuid_of(140);
    let task = make_task(task_id, "done", TaskStatus::Completed, Vec::new());
    let mut job = restore_job(
        uuid_of(141),
        JobStatus::Completed,
        vec![task.clone()],
        1,
        None,
        None,
        uuid_of(1400),
        None,
        Some(Moment::now()),
        None,
        HashMap::new(),
    );
    let worker_job = restore_job(
        *job.id(),
        JobStatus::Running,
        vec![task],
        1,
        None,
        None,
        uuid_of(1401),
        Some(Moment::now()),
        None,
        None,
        HashMap::new(),
    );

    let err = job
        .merge_with_processed_task(&worker_job, &uuid_of(1401), &task_id)
        .unwrap_err();
    assert!(matches!(err, JobError::Other(_)));
}

#[test]
fn test_job_definition_new_success_with_defaults_and_builders() {
    let task_a = task_definition("task_a");
    let task_b = task_definition("task_b");
    let task_limits = TaskLimits {
        max_input_bytes: 1,
        max_output_bytes: 2,
    };

    let job_def = job_definition_with_limits(vec![task_a, task_b], task_limits)
        .with_max_iterations(3)
        .unwrap()
        .with_iteration_interval(Duration::from_secs(7))
        .unwrap();

    assert_eq!(job_def.max_iterations(), Some(3));
    assert_eq!(job_def.iteration_interval(), Some(Duration::from_secs(7)));
    assert_eq!(job_def.task_limits().max_input_bytes, 1);
    assert_eq!(job_def.task_limits().max_output_bytes, 2);
}

#[test]
fn test_job_definition_new_defaults_without_builders() {
    let job_def = job_definition(vec![task_definition("noop")]);

    assert_eq!(job_def.max_iterations(), None);
    assert_eq!(job_def.iteration_interval(), None);
    // Retention of 100 is what makes iteration 101 the first one with anything to delete.
    assert_eq!(job_def.calculate_retention_boundary(100), None);
    assert_eq!(job_def.calculate_retention_boundary(101), Some(1));
    assert_eq!(
        job_def.task_limits().max_input_bytes,
        TaskLimits::default().max_input_bytes
    );
    assert_eq!(
        job_def.task_limits().max_output_bytes,
        TaskLimits::default().max_output_bytes
    );
}

#[test]
fn test_job_definition_new_rejects_empty_initial_tasks() {
    let result = JobDefinition::new(
        test_definition_id(),
        JobCode::new("job"),
        Vec::new(),
        Vec::new(),
        Vec::new(),
        TaskLimits::default(),
    );
    assert!(matches!(result, Err(Error::Other(_))));
}

/// The limits belong to the job, so a definition that cannot produce a legal task under them
/// is refused where the description is assembled, not when a worker plans an iteration.
#[test]
fn new_rejects_a_definition_above_the_input_limit() {
    let too_big = task_definition("noop").with_input(vec![0; 5]);

    let error = JobDefinition::new(
        test_definition_id(),
        JobCode::new("job"),
        vec![(too_big, noop_executor())],
        Vec::new(),
        Vec::new(),
        TaskLimits {
            max_input_bytes: 4,
            max_output_bytes: 10,
        },
    )
    .err()
    .expect("an oversized input must not describe a job");

    assert!(error.message().contains("input size"), "got: {error:?}");
}

/// Which executor runs a task would otherwise depend on registration order.
#[test]
fn new_rejects_two_different_executors_for_one_task_code() {
    let error = JobDefinition::new(
        test_definition_id(),
        JobCode::new("job"),
        vec![(task_definition("noop"), noop_executor())],
        vec![(TaskCode::new("noop"), noop_executor())],
        Vec::new(),
        TaskLimits::default(),
    )
    .err()
    .expect("two executors for one code must not describe a job");

    assert!(error.message().contains("two different executors"), "got: {error:?}");
}

/// A job may start several tasks sharing a code, so the same executor arriving twice is not a
/// mistake.
#[test]
fn new_accepts_the_same_executor_registered_twice() {
    let executor = noop_executor();

    let job_def = JobDefinition::new(
        test_definition_id(),
        JobCode::new("job"),
        vec![
            (task_definition("noop"), executor),
            (task_definition("noop"), executor),
        ],
        Vec::new(),
        Vec::new(),
        TaskLimits::default(),
    );

    assert!(job_def.is_ok(), "the same executor twice must describe a job");
}

/// A reference is a position, and a position only means something within the description that
/// handed it out: resolved against another description it would silently name whatever sits
/// there. The reference travels on the task definition here, which is one of the two channels it can
/// arrive by.
#[test]
fn new_rejects_a_task_definition_depending_on_another_descriptions_task() {
    let foreign = TaskRef::initial(JobDefinitionId::new(), 0);
    let task = task_definition("noop").with_dependencies(vec![foreign]);

    let error = JobDefinition::new(
        test_definition_id(),
        JobCode::new("job"),
        vec![(task, noop_executor())],
        Vec::new(),
        Vec::new(),
        TaskLimits::default(),
    )
    .err()
    .expect("a reference from another description must not describe a job");

    assert!(error.message().contains("outside its own job"), "got: {error:?}");
}

/// The same reference arriving as a declaration rather than on the definition is refused by
/// the same rule, in the dependency position and in the target position alike.
#[test]
fn new_rejects_a_declaration_naming_another_descriptions_task() {
    let foreign = TaskRef::initial(JobDefinitionId::new(), 0);

    for (task, dependencies) in [
        (initial_task_ref(0), vec![foreign]),
        (foreign, vec![initial_task_ref(0)]),
    ] {
        let error = JobDefinition::new(
            test_definition_id(),
            JobCode::new("job"),
            vec![(task_definition("noop"), noop_executor())],
            Vec::new(),
            vec![(task, dependencies)],
            TaskLimits::default(),
        )
        .err()
        .expect("a declaration naming another description must not describe a job");

        assert!(error.message().contains("outside its own job"), "got: {error:?}");
    }
}

/// The two declaration channels add up rather than replace each other, and the merged list is
/// what the iteration is planned from.
#[test]
fn new_merges_declared_dependencies_into_the_task_definition() {
    let first = task_definition("first");
    let second = task_definition("second");
    let third = task_definition("third").with_dependencies(vec![initial_task_ref(0)]);

    let job_def = JobDefinition::new(
        test_definition_id(),
        JobCode::new("job"),
        vec![
            (first, noop_executor()),
            (second, noop_executor()),
            (third, noop_executor()),
        ],
        Vec::new(),
        vec![(initial_task_ref(2), vec![initial_task_ref(1)])],
        TaskLimits::default(),
    )
    .expect("both declaration channels must describe a job");

    assert_eq!(
        job_def.initial_tasks()[2].depends_on(),
        &[initial_task_ref(0), initial_task_ref(1)]
    );
}

/// A cycle closed through the declaration channel is the same cycle, so it is refused even
/// though no single task definition declares it.
#[test]
fn new_rejects_a_dependency_cycle_closed_by_a_declaration() {
    let first = task_definition("first").with_dependencies(vec![initial_task_ref(1)]);
    let second = task_definition("second");

    let error = JobDefinition::new(
        test_definition_id(),
        JobCode::new("job"),
        vec![(first, noop_executor()), (second, noop_executor())],
        Vec::new(),
        vec![(initial_task_ref(1), vec![initial_task_ref(0)])],
        TaskLimits::default(),
    )
    .err()
    .expect("a cycle must not describe a job");

    assert!(error.message().contains("dependency cycle"), "got: {error:?}");
}

/// A runtime task exists only inside an iteration, so a description cannot wait for one.
#[test]
fn new_rejects_an_initial_task_depending_on_a_runtime_task() {
    let task = task_definition("noop").with_dependencies(vec![TaskRef::created(uuid_of(9))]);

    let error = JobDefinition::new(
        test_definition_id(),
        JobCode::new("job"),
        vec![(task, noop_executor())],
        Vec::new(),
        Vec::new(),
        TaskLimits::default(),
    )
    .err()
    .expect("a reference to a runtime task must not describe a job");

    assert!(error.message().contains("created at runtime"), "got: {error:?}");
}

/// Every task of a cycle would stay blocked forever, so the description is refused instead.
#[test]
fn new_rejects_a_dependency_cycle() {
    let first = task_definition("first").with_dependencies(vec![initial_task_ref(1)]);
    let second = task_definition("second").with_dependencies(vec![initial_task_ref(0)]);

    let error = JobDefinition::new(
        test_definition_id(),
        JobCode::new("job"),
        vec![(first, noop_executor()), (second, noop_executor())],
        Vec::new(),
        Vec::new(),
        TaskLimits::default(),
    )
    .err()
    .expect("a cycle must not describe a job");

    assert!(error.message().contains("dependency cycle"), "got: {error:?}");
}

/// A diamond is not a cycle: the search must not report one just because a task is reached
/// twice by different paths.
#[test]
fn new_accepts_a_diamond_shaped_graph() {
    let root = task_definition("root");
    let left = task_definition("left").with_dependencies(vec![initial_task_ref(0)]);
    let right = task_definition("right").with_dependencies(vec![initial_task_ref(0)]);
    let join = task_definition("join").with_dependencies(vec![initial_task_ref(1), initial_task_ref(2)]);

    let job_def = JobDefinition::new(
        test_definition_id(),
        JobCode::new("job"),
        vec![
            (root, noop_executor()),
            (left, noop_executor()),
            (right, noop_executor()),
            (join, noop_executor()),
        ],
        Vec::new(),
        Vec::new(),
        TaskLimits::default(),
    );

    assert!(job_def.is_ok(), "a diamond must describe a job");
}

#[test]
fn test_job_definition_with_max_iterations_rejects_zero() {
    let job_def = job_definition(vec![task_definition("noop")]);

    let result = job_def.with_max_iterations(0);
    assert!(matches!(result, Err(Error::Other(_))));
}

#[test]
fn test_job_definition_with_iteration_retention_rejects_below_floor_and_applies_accepted_values() {
    let job_def = job_definition(vec![task_definition("noop")]);

    let below = job_def.clone().with_iteration_retention(4);
    assert!(matches!(below, Err(Error::Other(_))));

    assert!(job_def.clone().with_iteration_retention(5).is_ok());

    // The boundary tests below all build their definition with a window of 5, so this is the
    // only place where an accepted argument other than the floor is proven to be applied at
    // all: an ignored argument would leave the default window of 100 and yield `None` here.
    let above_floor = job_def.with_iteration_retention(7).unwrap();
    assert_eq!(above_floor.calculate_retention_boundary(8), Some(1));
}

fn build_job_definition_for_retention(iteration_retention: u64) -> JobDefinition {
    job_definition(vec![task_definition("noop")])
        .with_iteration_retention(iteration_retention)
        .unwrap()
}

#[test]
fn test_retention_boundary_is_absent_while_the_window_covers_the_whole_history() {
    let job_def = build_job_definition_for_retention(5);

    assert_eq!(job_def.calculate_retention_boundary(4), None);
    assert_eq!(job_def.calculate_retention_boundary(5), None);
}

#[test]
fn test_retention_boundary_is_the_newest_iteration_outside_the_window() {
    let job_def = build_job_definition_for_retention(5);

    assert_eq!(job_def.calculate_retention_boundary(6), Some(1));
    assert_eq!(job_def.calculate_retention_boundary(106), Some(101));
    assert_eq!(job_def.calculate_retention_boundary(u64::MAX), Some(u64::MAX - 5));
}

#[test]
/// The boundaries are zero and a value the millisecond-based scheduler cannot hold.
fn test_job_definition_with_iteration_interval_rejects_zero_and_oversized() {
    let job_def = job_definition(vec![task_definition("noop")]);

    let zero = job_def.clone().with_iteration_interval(Duration::zero());
    assert!(matches!(zero, Err(Error::Other(_))));
    let oversized = job_def.with_iteration_interval(Duration::longest());
    assert!(matches!(oversized, Err(Error::Other(_))));
}

#[test]
fn test_job_new_accepts_input_at_limit() {
    let task_def = task_definition("fit").with_input(vec![0; 4]);
    let limits = TaskLimits {
        max_input_bytes: 4,
        max_output_bytes: 10,
    };

    let job = Job::new(
        &job_definition_with_limits(vec![task_def], limits),
        HashMap::new(),
        uuid_of(1599),
    )
    .unwrap();

    assert_eq!(job.tasks().len(), 1);
}

#[test]
fn test_add_task_rejects_oversized_input() {
    let limits = TaskLimits {
        max_input_bytes: 4,
        max_output_bytes: 10,
    };
    let init_def =
        TaskDefinition::new(TaskCode::new("init"), Duration::from_secs(5)).with_input(vec![0; 1]);
    let mut job = Job::new(
        &job_definition_with_limits(vec![init_def], limits),
        HashMap::new(),
        uuid_of(1700),
    )
    .unwrap();

    let task_def =
        TaskDefinition::new(TaskCode::new("child"), Duration::from_secs(5)).with_input(vec![0; 5]);
    let err = job.add_task(&task_def, uuid_of(1701), None).err().unwrap();
    assert!(matches!(err, JobError::Other(_)));
}

#[test]
fn test_add_task_accepts_input_at_limit() {
    let limits = TaskLimits {
        max_input_bytes: 4,
        max_output_bytes: 10,
    };
    let init_def =
        TaskDefinition::new(TaskCode::new("init"), Duration::from_secs(5)).with_input(vec![0; 1]);
    let mut job = Job::new(
        &job_definition_with_limits(vec![init_def], limits),
        HashMap::new(),
        uuid_of(1750),
    )
    .unwrap();

    let task_def =
        TaskDefinition::new(TaskCode::new("child"), Duration::from_secs(5)).with_input(vec![0; 4]);
    let task_id = job.add_task(&task_def, uuid_of(1751), None).unwrap();
    let task = job.get_task(&task_id).unwrap();
    assert_eq!(task.input().len(), 4);
}

#[test]
fn test_complete_task_rejects_oversized_output() {
    let limits = TaskLimits {
        max_input_bytes: 4,
        max_output_bytes: 4,
    };
    let init_def =
        TaskDefinition::new(TaskCode::new("init"), Duration::from_secs(5)).with_input(vec![0; 1]);
    let mut job = Job::new(
        &job_definition_with_limits(vec![init_def], limits),
        HashMap::new(),
        uuid_of(1800),
    )
    .unwrap();

    let task_id = *job.tasks().first().unwrap().id();
    job.start_task(&task_id, uuid_of(1801)).unwrap();

    let err = job.complete_task(&task_id, vec![0; 5]).err().unwrap();
    assert!(matches!(err, JobError::Other(_)));
}

#[test]
fn test_complete_task_accepts_output_at_limit() {
    let limits = TaskLimits {
        max_input_bytes: 4,
        max_output_bytes: 4,
    };
    let init_def =
        TaskDefinition::new(TaskCode::new("init"), Duration::from_secs(5)).with_input(vec![0; 1]);
    let mut job = Job::new(
        &job_definition_with_limits(vec![init_def], limits),
        HashMap::new(),
        uuid_of(1850),
    )
    .unwrap();

    let task_id = *job.tasks().first().unwrap().id();
    job.start_task(&task_id, uuid_of(1851)).unwrap();
    job.complete_task(&task_id, vec![0; 4]).unwrap();

    let task = job.get_task(&task_id).unwrap();
    assert!(matches!(task.status(), TaskStatus::Completed));
    assert_eq!(task.output().len(), 4);
}

/// A task skipped for a cause that carries no failure does not keep its iteration from completing.
#[test]
fn skipped_tasks_do_not_keep_an_iteration_from_completing() {
    let worker_id = uuid_of(100);
    for cause in [SkipCause::ExecutorDecision, SkipCause::SkippedDependency] {
        let skipped = make_task(uuid_of(1), "skipped", TaskStatus::Skipped(cause), Vec::new());
        let todo = make_task(uuid_of(2), "todo", TaskStatus::Todo, Vec::new());
        let mut job = restore_job(
            uuid_of(101),
            JobStatus::Started,
            vec![skipped, todo],
            1,
            Some(1),
            None,
            worker_id,
            None,
            None,
            None,
            HashMap::new(),
        );

        assert_eq!(job.pick_task_to_execute(&worker_id).unwrap(), TaskPickup::Ready(uuid_of(2)));
        job.start_task(&uuid_of(2), worker_id).unwrap();
        assert!(!job.try_to_complete(&worker_id).unwrap());
        job.complete_task(&uuid_of(2), Vec::new()).unwrap();

        assert!(!job.all_tasks_completed());
        assert!(job.is_settled_at(Moment::now()));
        assert!(job.try_to_complete(&worker_id).unwrap());
        assert!(matches!(job.status(), JobStatus::Completed));
    }
}

/// A task put out because a dependency failed is that failure surfacing: the iteration ends as failed.
#[test]
fn a_task_skipped_for_a_failure_fails_the_iteration() {
    let worker_id = uuid_of(100);
    let skipped = make_task(
        uuid_of(1),
        "skipped",
        TaskStatus::Skipped(SkipCause::FailedDependency),
        Vec::new(),
    );
    let done = make_task(uuid_of(2), "done", TaskStatus::Completed, Vec::new());
    let mut job = restore_job(
        uuid_of(101),
        JobStatus::Running,
        vec![skipped, done],
        1,
        Some(1),
        None,
        worker_id,
        None,
        None,
        None,
        HashMap::new(),
    );

    assert!(!job.try_to_complete(&worker_id).unwrap());
    assert_eq!(job.pick_task_to_execute(&worker_id).unwrap(), TaskPickup::Exhausted);
    assert!(matches!(job.status(), JobStatus::Failed));
}

/// A job that is not ready refuses its next iteration in words, also where its numbers are used up.
#[test]
fn a_full_iteration_counter_is_refused_like_any_other_where_the_job_is_not_ready() {
    let worker_id = uuid_of(100);
    for (status, max_iterations) in [(JobStatus::Running, None), (JobStatus::Completed, Some(3))] {
        let mut job = restore_job(
            uuid_of(101),
            status,
            vec![make_task(uuid_of(1), "t", TaskStatus::Completed, Vec::new())],
            u64::MAX,
            max_iterations,
            None,
            worker_id,
            None,
            None,
            None,
            HashMap::new(),
        );

        let err = job
            .next_iteration(&job_definition(vec![task_definition("t")]), uuid_of(102))
            .unwrap_err();

        assert_eq!(err.message(), "job is not ready to next iteration");
        assert_eq!(job.iter_num(), u64::MAX);
        assert_eq!(*job.status(), status);
        assert_eq!(job.updated_by_worker_id(), worker_id);
    }
}

/// A job whose first task its executor skipped, with the tasks given besides it.
fn job_below_a_decision(tasks: Vec<Task>) -> Job {
    let decision = TaskStatus::Skipped(SkipCause::ExecutorDecision);
    let mut all = vec![make_task(uuid_of(1), "decided", decision, Vec::new())];
    all.extend(tasks);
    restore_job(
        uuid_of(101),
        JobStatus::Running,
        all,
        1,
        Some(1),
        None,
        uuid_of(100),
        None,
        None,
        None,
        HashMap::new(),
    )
}

fn blocked_behind(id: u128, depends_on: Vec<Uuid>) -> Task {
    make_task(uuid_of(id), "blocked", TaskStatus::Blocked, depends_on)
}

const GIVEN_UP: TaskStatus = TaskStatus::Skipped(SkipCause::SkippedDependency);

/// A branch below a skipped task is given up all the way down, and does not spoil the iteration.
#[test]
fn a_branch_below_a_skipped_task_is_given_up() {
    let worker_id = uuid_of(100);
    let mut job = job_below_a_decision(vec![
        blocked_behind(2, vec![uuid_of(1)]),
        blocked_behind(3, vec![uuid_of(2)]),
        blocked_behind(4, vec![uuid_of(3), uuid_of(1)]),
    ]);

    assert_eq!(job.pick_task_to_execute(&worker_id).unwrap(), TaskPickup::Settled);

    assert!(matches!(job.status(), JobStatus::Completed));
    assert!(job.completed_at().is_some());
    for id in [2, 3, 4] {
        let task = job.find_task(&uuid_of(id)).unwrap();
        assert_eq!(*task.status(), GIVEN_UP);
        assert_eq!(task.resolution_reason(), "dependency skipped");
        assert!(task.completed_at().is_some());
    }
    assert_eq!(
        *job.find_task(&uuid_of(1)).unwrap().status(),
        TaskStatus::Skipped(SkipCause::ExecutorDecision)
    );
}

/// The last execution of an iteration gives the branch up as well, and completes the iteration.
#[test]
fn the_last_execution_gives_up_what_waits_for_a_skipped_task() {
    let worker_id = uuid_of(100);
    let mut job = job_below_a_decision(vec![
        blocked_behind(2, vec![uuid_of(1)]),
        make_task(uuid_of(3), "todo", TaskStatus::Todo, Vec::new()),
    ]);

    assert_eq!(job.pick_task_to_execute(&worker_id).unwrap(), TaskPickup::Ready(uuid_of(3)));
    job.start_task(&uuid_of(3), worker_id).unwrap();
    assert!(!job.try_to_complete(&worker_id).unwrap());
    assert_eq!(*job.find_task(&uuid_of(2)).unwrap().status(), GIVEN_UP);
    assert!(matches!(job.status(), JobStatus::Running));

    job.complete_task(&uuid_of(3), Vec::new()).unwrap();
    assert!(job.try_to_complete(&worker_id).unwrap());
    assert!(matches!(job.status(), JobStatus::Completed));
}

/// A task that tolerates a skipped dependency starts on one that was put out with its branch.
#[test]
fn a_given_up_branch_ends_where_a_task_tolerates_it() {
    let tolerant = Task::restore(RestoredTask {
        id: uuid_of(3),
        code: TaskCode::new("tolerant"),
        status: TaskStatus::Blocked,
        processing_by_worker: None,
        created_by_worker: uuid_of(9),
        timeout: seconds(5),
        max_lifetime: seconds(25),
        started_at: None,
        completed_at: None,
        deadline_at: None,
        lifetime_deadline_at: None,
        attempt: 0,
        max_attempts: DEFAULT_MAX_ATTEMPTS,
        input: Vec::new(),
        output: Vec::new(),
        resolution_reason: String::new(),
        retry: TaskRetry::WhileBudgetLasts,
        tolerance: DependencyTolerance {
            allows_failed: false,
            allows_skipped: true,
        },
        depends_on: vec![uuid_of(2)],
    });
    let mut job = job_below_a_decision(vec![blocked_behind(2, vec![uuid_of(1)]), tolerant]);

    assert_eq!(
        job.pick_task_to_execute(&uuid_of(100)).unwrap(),
        TaskPickup::Ready(uuid_of(3))
    );
    assert_eq!(*job.find_task(&uuid_of(2)).unwrap().status(), GIVEN_UP);
    assert_eq!(*job.find_task(&uuid_of(3)).unwrap().status(), TaskStatus::Todo);
}

/// A failure outranks a skipped dependency: the task stays blocked, and the iteration ends as failed.
#[test]
fn a_task_held_by_a_failure_is_not_given_up() {
    let failed = make_task_with_attempts(
        uuid_of(2),
        "failed",
        TaskStatus::Failed,
        Vec::new(),
        2,
        2,
        Some(seconds(60)),
    );
    let mut job = job_below_a_decision(vec![failed, blocked_behind(3, vec![uuid_of(1), uuid_of(2)])]);

    assert_eq!(job.pick_task_to_execute(&uuid_of(100)).unwrap(), TaskPickup::Exhausted);
    assert!(matches!(job.status(), JobStatus::Failed));
    assert_eq!(*job.find_task(&uuid_of(3)).unwrap().status(), TaskStatus::Blocked);
}

/// A task that waits for one there is not stays a deadlock, whatever else was given up.
#[test]
fn a_missing_dependency_is_still_a_deadlock_beside_a_given_up_branch() {
    let mut job = job_below_a_decision(vec![
        blocked_behind(2, vec![uuid_of(1)]),
        blocked_behind(3, vec![uuid_of(77)]),
    ]);

    assert_eq!(
        job.pick_task_to_execute(&uuid_of(100)).unwrap_err().message(),
        "job job deadlock: blocked tasks with unmet dependencies"
    );
    assert!(matches!(job.status(), JobStatus::Running));
}
