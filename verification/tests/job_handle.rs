//! The handle an executor changes its job through.

use std::collections::HashMap;

use jobmanager::code::{JobCode, TaskCode};
use jobmanager::definition::{JobDefinition, JobDefinitionId, TaskLimits};
use jobmanager::error::JobError;
use jobmanager::job::Job;
use jobmanager::job_handle::JobHandleState;
use jobmanager::task::{TaskDefinition, TaskRefKind, Uuid};
use jobmanager::time::{Duration, Moment, TimeDelta};
use parking_lot::RwLock;

/// The worker every handle below belongs to.
const WORKER: Uuid = 2;

fn test_job() -> Job {
    let task_def = TaskDefinition::new(TaskCode::new("task"), Duration::from_secs(5));
    let job_def = JobDefinition::new(
        JobDefinitionId::new(),
        JobCode::new("job"),
        vec![(task_def, 1)],
        Vec::new(),
        Vec::new(),
        TaskLimits::default(),
    )
    .unwrap();
    Job::new(&job_def, HashMap::new(), 1).unwrap()
}

/// The state of a handle to a job whose only task is the one executed.
fn test_state() -> RwLock<JobHandleState> {
    RwLock::new(JobHandleState::new(test_job()))
}

/// The state of a handle whose task the worker has started, as it does before it hands one out.
fn started_state() -> RwLock<JobHandleState> {
    let mut job = test_job();
    let task_id = *job.tasks().first().unwrap().id();
    job.start_task(&task_id, WORKER).unwrap();
    RwLock::new(JobHandleState::new(job))
}

fn only_task_id(state: &RwLock<JobHandleState>) -> Uuid {
    *state
        .read()
        .job()
        .get_tasks_by_code(&TaskCode::new("task"))
        .first()
        .unwrap()
        .id()
}

fn in_seconds(count: i64) -> Moment {
    Moment::now()
        .checked_add_signed(TimeDelta::from_millis(count * 1000).unwrap())
        .unwrap()
}

#[test]
fn job_handle_set_next_start_at_updates_job_under_lock() {
    let state = test_state();

    let next_start_at = in_seconds(30);
    state.write().set_next_start_at(next_start_at).unwrap();

    assert_eq!(state.read().job().next_start_at(), Some(next_start_at));
}

#[test]
fn job_manager_set_next_start_at_updates_job_under_lock() {
    let job = RwLock::new(test_job());

    let next_start_at = in_seconds(30);
    job.write().set_next_start_at(next_start_at);

    assert_eq!(job.read().next_start_at(), Some(next_start_at));
}

/// Completing is only legal from `Started`, so the task is started first - through the job itself,
/// since starting is the worker's move, not the executor's.
#[test]
fn open_handle_mutates_the_job() {
    let state = started_state();
    let task_id = only_task_id(&state);

    state.write().complete_task(&task_id, b"done".to_vec()).unwrap();

    assert!(state.read().job().get_task(&task_id).unwrap().is_completed());
}

/// After the worker closes it, a handle that outlived its executor can neither read nor write.
#[test]
fn closed_handle_rejects_every_call() {
    let state = started_state();
    let task_id = only_task_id(&state);

    state.write().close();

    let mut handle = state.write();
    let failures = [
        handle.complete_task(&task_id, Vec::new()).err(),
        handle.fail_task(&task_id, "late").err(),
        handle.set_next_start_at(Moment::now()).err(),
        handle.get_task(&task_id).err(),
        handle.get_tasks_by_code(&TaskCode::new("task")).err(),
        handle
            .add_task(
                &TaskDefinition::new(TaskCode::new("task"), Duration::from_secs(5)),
                WORKER,
                task_id,
            )
            .err(),
    ];
    drop(handle);
    for failure in failures {
        let message = failure.expect("a closed handle must reject the call").message();
        assert!(message.contains("no longer valid"), "got: {message}");
    }

    assert!(
        !state.read().job().get_task(&task_id).unwrap().is_completed(),
        "a rejected call must not have reached the job"
    );
}

/// A task added through the handle belongs to the execution that added it, and goes with it.
#[test]
fn a_task_added_through_the_handle_is_rolled_back_with_its_execution() {
    let state = started_state();
    let task_id = only_task_id(&state);

    let added = state
        .write()
        .add_task(
            &TaskDefinition::new(TaskCode::new("child"), Duration::from_secs(5)),
            WORKER,
            task_id,
        )
        .unwrap();
    let TaskRefKind::Created(child_id) = added.kind() else {
        panic!("a task added at runtime is named by its identifier")
    };
    let child = state.read().get_task(&child_id).unwrap();
    assert_eq!(child.created_by_task(), Some(task_id));
    assert_eq!(child.created_by_worker(), WORKER);

    state.write().fail_task(&task_id, "gave up").unwrap();

    assert_eq!(state.read().get_task(&child_id).unwrap_err().message(), "task not found");
    let failed = state.read().get_task(&task_id).unwrap();
    assert!(failed.is_failed());
    assert_eq!(failed.resolution_reason(), "gave up");
}

/// The handle passes on what the job says.
#[test]
fn a_refusal_of_the_job_reaches_the_executor_in_words() {
    let state = test_state();
    let task_id = only_task_id(&state);

    let error = state.write().complete_task(&task_id, Vec::new()).unwrap_err();

    let id = uuid::Uuid::from_u128(task_id);
    assert_eq!(
        error.message(),
        format!("cannot complete task (id: {id}; code: task) with status Todo")
    );
}

#[test]
fn a_closed_state_hands_its_job_back() {
    let state = started_state();
    let task_id = only_task_id(&state);
    state.write().complete_task(&task_id, b"done".to_vec()).unwrap();
    state.write().close();

    let job = state.into_inner().into_job();

    assert_eq!(job.get_task(&task_id).unwrap().output(), b"done");
}

/// A write reaches the job once while the handle is open, and gives back what the writer answered; a
/// closed handle calls no writer and no reader at all.
#[test]
fn a_write_reaches_the_job_only_while_the_handle_is_open() {
    let mut handle = JobHandleState::new(test_job());
    let due = in_seconds(60);
    let mut calls = 0;

    let written = handle.write_job(|job: &mut Job| {
        calls += 1;
        job.set_next_start_at(due);
        Ok(7)
    });
    assert_eq!(written.unwrap(), 7);
    assert_eq!(handle.job().next_start_at(), Some(due));
    let refused = handle.write_job(|_job: &mut Job| -> Result<(), JobError> {
        calls += 1;
        Err(JobError::TaskNotFound)
    });
    assert_eq!(refused.unwrap_err().message(), JobError::TaskNotFound.message());
    assert_eq!(handle.read_job(|job: &Job| Ok(job.iter_num())).unwrap(), 1);
    assert_eq!(calls, 2);

    handle.close();
    for _ in 0..2 {
        let written = handle.write_job(|job: &mut Job| {
            calls += 1;
            job.set_next_start_at(in_seconds(90));
            Ok(())
        });
        assert!(written.unwrap_err().message().contains("no longer valid"));
        let read = handle.read_job(|job: &Job| {
            calls += 1;
            Ok(job.iter_num())
        });
        assert!(read.unwrap_err().message().contains("no longer valid"));
    }
    assert_eq!(calls, 2);
    assert_eq!(handle.job().next_start_at(), Some(due));
}
