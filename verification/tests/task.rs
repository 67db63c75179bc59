//! Tasks: their definitions, their transitions and the limits they live under.

use jobmanager::code::TaskCode;
use jobmanager::definition::TaskLimits;
use jobmanager::error::JobError;
use jobmanager::status::{DependencyTolerance, SkipCause, TaskRetry, TaskStatus};
use jobmanager::task::{
    DependencyVerdict, RestoredTask, Task, TaskAvailability, TaskDefinition, Uuid,
    DEFAULT_MAX_ATTEMPTS,
};
use jobmanager::time::{Duration, Moment, TimeDelta};

fn uuid_of(number: u128) -> Uuid {
    number
}

fn seconds(count: i64) -> TimeDelta {
    TimeDelta::from_millis(count * 1000).unwrap()
}

fn moved(moment: Moment, millis: i64) -> Moment {
    moment.checked_add_signed(TimeDelta::from_millis(millis).unwrap()).unwrap()
}

fn after(moment: Moment, count: i64) -> Moment {
    moved(moment, count * 1000)
}

fn from_now(count: i64) -> Moment {
    after(Moment::now(), count)
}

#[test]
fn task_definition_keeps_std_duration() {
    let def = TaskDefinition::new(TaskCode::new("t"), Duration::from_millis(1500));
    assert_eq!(def.timeout(), Duration::from_millis(1500));
}

#[test]
fn new_leaves_the_input_empty() {
    let def = TaskDefinition::new(TaskCode::new("t"), Duration::from_secs(1));
    assert!(def.input().is_empty());
}

/// The payload is a single value, not an accumulating buffer: a second call must not append to
/// what the first one attached.
#[test]
fn with_input_replaces_the_payload() {
    let def = TaskDefinition::new(TaskCode::new("t"), Duration::from_secs(1))
        .with_input(vec![1, 2])
        .with_input(vec![3]);
    assert_eq!(def.input(), &[3]);
}

/// The tolerance is a single declaration rather than an accumulating one: a second call must
/// replace the flags of the first, not add to them.
#[test]
fn with_dependency_tolerance_replaces_the_declaration() {
    let def = TaskDefinition::new(TaskCode::new("t"), Duration::from_secs(1))
        .with_dependency_tolerance(DependencyTolerance {
            allows_failed: true,
            allows_skipped: false,
        })
        .with_dependency_tolerance(DependencyTolerance {
            allows_failed: false,
            allows_skipped: true,
        });
    assert_eq!(
        def.tolerance(),
        DependencyTolerance {
            allows_failed: false,
            allows_skipped: true,
        }
    );
}

#[test]
fn validate_rejects_zero_timeout() {
    let def = TaskDefinition::new(TaskCode::new("t"), Duration::zero());
    let error = def.validate(TaskLimits::default()).unwrap_err();
    assert!(error.message().contains("must be positive"), "got: {error:?}");
}

/// The stored state carries the timeout as milliseconds in an `i64`, so a definition above that
/// range cannot round-trip and is refused rather than silently truncated.
#[test]
fn validate_rejects_timeout_beyond_millisecond_range() {
    let def = TaskDefinition::new(TaskCode::new("t"), Duration::longest());
    let error = def.validate(TaskLimits::default()).unwrap_err();
    assert!(error.message().contains("too large"), "got: {error:?}");
}

#[test]
fn validate_rejects_zero_max_lifetime() {
    let def =
        TaskDefinition::new(TaskCode::new("t"), Duration::from_secs(1)).with_max_lifetime(Duration::zero());
    let error = def.validate(TaskLimits::default()).unwrap_err();
    assert!(
        error.message().contains("max lifetime must be positive"),
        "got: {error:?}"
    );
}

/// The lifetime rides the same millisecond `i64` in the stored state as the timeout does.
#[test]
fn validate_rejects_max_lifetime_beyond_millisecond_range() {
    let def =
        TaskDefinition::new(TaskCode::new("t"), Duration::from_secs(1)).with_max_lifetime(Duration::longest());
    let error = def.validate(TaskLimits::default()).unwrap_err();
    assert!(error.message().contains("max lifetime is too large"), "got: {error:?}");
}

/// A lifetime shorter than the deadline would kill the task before its very first deadline
/// passed, so no takeover could ever happen.
#[test]
fn validate_rejects_max_lifetime_below_the_timeout() {
    let def = TaskDefinition::new(TaskCode::new("t"), Duration::from_secs(10))
        .with_max_lifetime(Duration::from_secs(9));
    let error = def.validate(TaskLimits::default()).unwrap_err();
    assert!(error.message().contains("must not be below"), "got: {error:?}");
}

/// The boundary itself is legal: exactly one deadline's worth of lifetime means the task is
/// failed at the moment it could first be taken over.
#[test]
fn validate_accepts_max_lifetime_equal_to_the_timeout() {
    let def = TaskDefinition::new(TaskCode::new("t"), Duration::from_secs(10))
        .with_max_lifetime(Duration::from_secs(10));
    assert!(def.validate(TaskLimits::default()).is_ok());
}

/// The default is stated literally rather than derived from the multiplier, so a changed
/// multiplier shows up here instead of in production behavior alone.
#[test]
fn new_sets_the_max_lifetime_to_five_timeouts() {
    let def = TaskDefinition::new(TaskCode::new("t"), Duration::from_millis(300));
    assert_eq!(def.max_lifetime(), Duration::from_millis(1500));
}

#[test]
fn validate_rejects_zero_max_attempts() {
    let def = TaskDefinition::new(TaskCode::new("t"), Duration::from_secs(1)).with_max_attempts(0);
    let error = def.validate(TaskLimits::default()).unwrap_err();
    assert!(error.message().contains("max attempts"), "got: {error:?}");
}

#[test]
fn validate_rejects_input_above_the_limit() {
    let limits = TaskLimits {
        max_input_bytes: 4,
        max_output_bytes: 10,
    };
    let def = TaskDefinition::new(TaskCode::new("t"), Duration::from_secs(1)).with_input(vec![0; 5]);
    let error = def.validate(limits).unwrap_err();
    assert!(error.message().contains("input size"), "got: {error:?}");
}

#[test]
fn validate_accepts_input_at_the_limit() {
    let limits = TaskLimits {
        max_input_bytes: 4,
        max_output_bytes: 10,
    };
    let def = TaskDefinition::new(TaskCode::new("t"), Duration::from_secs(1))
        .with_input(vec![0; 4])
        .with_max_attempts(2);
    assert!(def.validate(limits).is_ok());
}

/// The task carries the deadline budget the definition declared: a definition in milliseconds
/// must not be rounded to whole seconds on its way into the task.
#[test]
fn task_carries_the_definition_timeout() {
    let def = TaskDefinition::new(TaskCode::new("t"), Duration::from_millis(1500));
    let task = Task::new(uuid_of(2), uuid_of(1), None, &def, Vec::new());
    assert_eq!(task.timeout(), TimeDelta::from_millis(1500).unwrap());
}

/// A task starts out blocked where it waits for another, and ready otherwise.
#[test]
fn new_blocks_a_task_that_declares_dependencies() {
    let def = TaskDefinition::new(TaskCode::new("t"), Duration::from_secs(1));

    let blocked = Task::new(
        uuid_of(2),
        uuid_of(1),
        None,
        &def,
        vec![uuid_of(3)],
    );
    let free = Task::new(uuid_of(4), uuid_of(1), None, &def, Vec::new());

    assert_eq!(*blocked.status(), TaskStatus::Blocked);
    assert_eq!(*free.status(), TaskStatus::Todo);
}

/// The point of the terminal refusal: a deterministic failure stops the task without spending
/// the budget the retries of a flaky one need.
#[test]
fn a_refusal_declared_terminal_ends_the_task_with_its_budget_untouched() {
    let def = TaskDefinition::new(TaskCode::new("t"), Duration::from_secs(5));
    let mut task = Task::new(uuid_of(2), uuid_of(1), None, &def, Vec::new());
    task.start(uuid_of(3)).unwrap();

    task.fail("decode input", TaskRetry::Never).unwrap();

    assert!(task.is_terminally_failed_at(Moment::now()));
    assert_eq!(task.check_availability_at(Moment::now()), TaskAvailability::Unavailable);
    assert_eq!(
        task.attempt(),
        1,
        "a terminal refusal must not spend the rest of the budget"
    );
}

/// The ordinary refusal keeps its behaviour: the task is picked up again while the budget lasts.
#[test]
fn a_refusal_declared_retryable_leaves_the_task_pickable() {
    let def = TaskDefinition::new(TaskCode::new("t"), Duration::from_secs(5));
    let mut task = Task::new(uuid_of(2), uuid_of(1), None, &def, Vec::new());
    task.start(uuid_of(3)).unwrap();

    task.fail("flaky store", TaskRetry::WhileBudgetLasts).unwrap();

    assert!(!task.is_terminally_failed_at(Moment::now()));
    assert_eq!(task.check_availability_at(Moment::now()), TaskAvailability::Pickable);
}

/// The executor's own decision about the task it is running.
#[test]
fn a_started_task_is_skipped_by_its_executor() {
    let def = TaskDefinition::new(TaskCode::new("t"), Duration::from_secs(5));
    let mut task = Task::new(uuid_of(2), uuid_of(1), None, &def, Vec::new());
    task.start(uuid_of(3)).unwrap();

    task.skip("no rules matched", SkipCause::ExecutorDecision).unwrap();

    assert!(task.is_skipped());
    assert!(task.is_resolved());
    assert_eq!(task.skip_cause(), Some(SkipCause::ExecutorDecision));
    assert_eq!(task.check_availability_at(Moment::now()), TaskAvailability::Unavailable);
}

/// The string the caller gives is what a dependent reads off the task through
/// `ImmutableTask::get_resolution_reason`, so it is recorded as it was given whatever ended the
/// branch - a decision of the executor or a cascade putting the branch out. 
#[test]
fn a_skip_records_the_reason_it_was_given() {
    let def = TaskDefinition::new(TaskCode::new("t"), Duration::from_secs(5));
    let mut decided = Task::new(uuid_of(2), uuid_of(1), None, &def, Vec::new());
    decided.start(uuid_of(3)).unwrap();

    decided.skip("no rules matched", SkipCause::ExecutorDecision).unwrap();

    assert_eq!(decided.resolution_reason(), "no rules matched");

    let mut put_out = Task::new(
        uuid_of(4),
        uuid_of(1),
        None,
        &def,
        vec![uuid_of(5)],
    );

    put_out.skip("put out with the branch", SkipCause::FailedDependency).unwrap();

    assert_eq!(put_out.resolution_reason(), "put out with the branch");
}

/// The cascade's own move: a task that never started is skipped from `Blocked`.
#[test]
fn a_blocked_task_is_skipped_by_the_cascade() {
    let def = TaskDefinition::new(TaskCode::new("t"), Duration::from_secs(5));
    let mut task = Task::new(
        uuid_of(2),
        uuid_of(1),
        None,
        &def,
        vec![uuid_of(3)],
    );

    task.skip("dependency failed", SkipCause::FailedDependency).unwrap();

    assert_eq!(task.skip_cause(), Some(SkipCause::FailedDependency));
}

/// The states a skip must refuse: three of them are terminal already, and `Todo` never waits
/// for anything the cascade could take away.
#[test]
fn a_skip_is_refused_from_every_other_state() {
    for status in [
        TaskStatus::Todo,
        TaskStatus::Completed,
        TaskStatus::Failed,
        TaskStatus::Skipped(SkipCause::ExecutorDecision),
    ] {
        let mut task = Task::restore(RestoredTask {
            status: status.clone(),
            ..restored_task_fields()
        });

        let error = task
            .skip("late", SkipCause::ExecutorDecision)
            .expect_err("a skip from this state must be refused");

        assert!(error.message().contains("cannot skip task"), "{status:?}: {error:?}");
    }
}

/// The absolute bound holds for a skip exactly as it does for a completion: a decision returned
/// past the lifetime is refused, so it cannot overwrite the verdict another worker already
/// wrote.
#[test]
fn a_task_cannot_be_skipped_past_its_lifetime_deadline() {
    for (lifetime_left, is_accepted) in [(seconds(10), true), (seconds(-1), false)] {
        let mut task = expired_started_task(1, lifetime_left);

        let outcome = task.skip("branch is pointless", SkipCause::ExecutorDecision);

        assert_eq!(outcome.is_ok(), is_accepted, "a lifetime deadline {lifetime_left:?} away");
        assert_eq!(task.is_skipped(), is_accepted);
    }
}

/// A task in the state a lost worker leaves behind: started, past its deadline, with the
/// lifetime deadline `lifetime_left` away.
fn expired_started_task(attempt: u32, lifetime_left: TimeDelta) -> Task {
    let now = Moment::now();
    Task::restore(RestoredTask {
        status: TaskStatus::Started,
        processing_by_worker: Some(uuid_of(1)),
        started_at: Some(after(now, -10)),
        deadline_at: Some(after(now, -1)),
        lifetime_deadline_at: Some(now.checked_add_signed(lifetime_left).unwrap()),
        attempt,
        ..restored_task_fields()
    })
}

/// The fields every restored fixture below starts from: a task nobody has run yet, whose
/// bounds are the ones the tests place their moments against.
fn restored_task_fields() -> RestoredTask {
    RestoredTask {
        id: uuid_of(2),
        code: TaskCode::new("t"),
        status: TaskStatus::Todo,
        processing_by_worker: None,
        created_by_worker: uuid_of(1),
        timeout: seconds(5),
        max_lifetime: seconds(25),
        started_at: None,
        completed_at: None,
        deadline_at: None,
        lifetime_deadline_at: None,
        attempt: 0,
        max_attempts: DEFAULT_MAX_ATTEMPTS,
        input: Vec::new(),
        output: Vec::new(),
        resolution_reason: String::new(),
        retry: TaskRetry::WhileBudgetLasts,
        tolerance: DependencyTolerance::default(),
        depends_on: Vec::new(),
    }
}

#[test]
fn start_from_todo_spends_an_attempt_and_sets_the_lifetime_deadline() {
    let def = TaskDefinition::new(TaskCode::new("t"), Duration::from_secs(2));
    let mut task = Task::new(uuid_of(2), uuid_of(1), None, &def, Vec::new());

    let before = Moment::now();
    task.start(uuid_of(3)).unwrap();

    assert_eq!(task.attempt(), 1);
    let lifetime_deadline = task.lifetime_deadline_at().expect("the first start sets the lifetime");
    assert!(
        (after(before, 10)..=from_now(10)).contains(&lifetime_deadline),
        "the lifetime deadline must be five timeouts past the start, got {lifetime_deadline:?}"
    );
}

/// What the attempt accounting exists for: a worker that dies leaves the task
/// started, and whoever takes it over must not be charged for that.
#[test]
fn takeover_of_an_expired_task_spends_no_attempt_and_keeps_the_lifetime_deadline() {
    let mut task = expired_started_task(1, seconds(20));
    let lifetime_deadline = task.lifetime_deadline_at();

    task.start(uuid_of(4)).unwrap();

    assert_eq!(task.attempt(), 1);
    assert_eq!(task.lifetime_deadline_at(), lifetime_deadline);
}

/// The lifetime runs from the *first* start, so a retry after a refusal spends an attempt but
/// leaves the deadline that bounds the task's occupancy of its iteration where it was - the same
/// rule a takeover follows, on the path that does spend an attempt.
#[test]
fn start_after_a_failure_spends_an_attempt_and_keeps_the_lifetime_deadline() {
    let mut task = Task::restore(RestoredTask {
        status: TaskStatus::Failed,
        processing_by_worker: Some(uuid_of(1)),
        started_at: Some(from_now(-10)),
        completed_at: Some(from_now(-9)),
        deadline_at: Some(from_now(-5)),
        lifetime_deadline_at: Some(from_now(15)),
        attempt: 1,
        ..restored_task_fields()
    });
    let lifetime_deadline = task.lifetime_deadline_at();

    task.start(uuid_of(4)).unwrap();

    assert_eq!(task.attempt(), 2);
    assert_eq!(task.lifetime_deadline_at(), lifetime_deadline);
}

/// The parent lives no longer than the execution that created the task, so restoring one takes
/// no parent at all: a task read back from storage belongs to no open execution, and a later
/// failure of whatever created it must leave it alone.
#[test]
fn a_restored_task_belongs_to_no_open_execution() {
    let task = Task::restore(restored_task_fields());

    assert_eq!(task.created_by_task(), None);
}

/// The lifetime is what bounds takeovers, which spend no attempt, and the two sides of
/// that boundary are two different verdicts rather than one predicate turning false.
#[test]
fn an_expired_task_is_failed_instead_of_taken_over_once_its_lifetime_has_passed() {
    assert_eq!(
        expired_started_task(1, seconds(20)).check_availability_at(Moment::now()),
        TaskAvailability::Pickable
    );
    assert_eq!(
        expired_started_task(1, seconds(-1)).check_availability_at(Moment::now()),
        TaskAvailability::ExpiredPastLifetime
    );
}

/// Which side of the lifetime deadline the instant itself falls on, which the verdict above
/// cannot pin down: it reads the clock itself, and by the time it does, a deadline placed at
/// "now" is already in the past. The predicate takes the moment, so all three cases are exact -
/// and the boundary is the same one the ownership deadline uses.
#[test]
fn the_lifetime_deadline_belongs_to_the_task_until_the_moment_after_it() {
    let now = Moment::now();
    let task = expired_started_task(1, seconds(0));
    let lifetime_deadline = task.lifetime_deadline_at().expect("the fixture places the lifetime deadline");

    assert!(!task.is_lifetime_expired_at(moved(lifetime_deadline, -1)));
    assert!(!task.is_lifetime_expired_at(lifetime_deadline));
    assert!(task.is_lifetime_expired_at(moved(lifetime_deadline, 1)));
    assert!(
        !task.is_lifetime_expired_at(now),
        "the fixture must place the deadline no earlier than the moment the test started"
    );
}

/// The bound is absolute: state from elsewhere can hold
/// a task whose deadline outlasts it, and such a task is failed rather than left to the executor
/// holding it.
#[test]
fn a_task_past_its_lifetime_is_failed_even_while_its_deadline_holds() {
    let now = Moment::now();
    let task = Task::restore(RestoredTask {
        status: TaskStatus::Started,
        processing_by_worker: Some(uuid_of(1)),
        started_at: Some(after(now, -30)),
        deadline_at: Some(after(now, 5)),
        lifetime_deadline_at: Some(after(now, -1)),
        attempt: 1,
        ..restored_task_fields()
    });

    assert_eq!(
        task.check_availability_at(Moment::now()),
        TaskAvailability::ExpiredPastLifetime
    );
}

/// A takeover close to the lifetime deadline must not hand the task a deadline reaching past it:
/// the window between the two would be one nobody signalled the executor in, and the lifetime
/// would be exceeded by almost a whole deadline. The task's own timeout is five seconds, so a
/// lifetime two seconds away is what the deadline has to fall back to.
#[test]
fn a_start_caps_the_deadline_at_the_lifetime_deadline() {
    let mut task = expired_started_task(1, seconds(2));
    let lifetime_deadline = task.lifetime_deadline_at();

    task.start(uuid_of(4)).unwrap();

    assert_eq!(task.deadline_at(), lifetime_deadline);
}

/// The ordinary start, where the deadline is the one the definition asked for: capping must not
/// shorten a deadline the lifetime leaves room for.
#[test]
fn a_start_keeps_the_deadline_the_timeout_asks_for_while_the_lifetime_allows_it() {
    let before = Moment::now();
    let mut task = expired_started_task(1, seconds(20));

    task.start(uuid_of(4)).unwrap();

    let deadline = task.deadline_at().expect("a start places the deadline");
    assert!(
        (after(before, 5)..=from_now(5)).contains(&deadline),
        "the deadline must be one timeout past the start, got {deadline:?}"
    );
}

/// A definition wide enough to place a boundary outside the range of dates passes validation -
/// durations are counted in a wider range than dates are - so the start has to answer with an
/// error rather than with the panic the plain addition would raise.
#[test]
fn a_start_whose_lifetime_falls_outside_the_range_of_dates_is_refused() {
    let mut task = Task::restore(RestoredTask {
        max_lifetime: TimeDelta::from_millis(i64::MAX).unwrap(),
        ..restored_task_fields()
    });

    let error = task.start(uuid_of(4)).unwrap_err();

    assert!(error.message().contains("outside the range of dates"), "got: {error:?}");
    assert_eq!(*task.status(), TaskStatus::Todo, "a refused start must change nothing");
    assert_eq!(task.attempt(), 0);
    assert_eq!(task.deadline_at(), None);
}

/// Dependency in the state named, built where a legal call sequence cannot place it - a task at
/// its attempt cap, a task the cascade put out.
fn dependency_in(status: TaskStatus, attempt: u32) -> Task {
    Task::restore(RestoredTask {
        status,
        attempt,
        ..restored_task_fields()
    })
}

/// Task tolerating what `tolerance` names, waiting for the dependency above.
fn dependent_tolerating(tolerance: DependencyTolerance) -> Task {
    Task::restore(RestoredTask {
        id: uuid_of(3),
        status: TaskStatus::Blocked,
        tolerance,
        depends_on: vec![uuid_of(2)],
        ..restored_task_fields()
    })
}

/// The whole rule in one table: every state a dependency can be in, against both flags of the
/// tolerance the dependent declared. The verdicts come from the contract of `judge_dependency`,
/// not from the graph rules that read it. Each state carries the flag that decides it in both
/// values, against the opposite value of the other flag, so a rule reading the wrong flag fails
/// here.
///
/// The pair worth naming is a dependency `Skipped(FailedDependency)` under `allows_skipped`: it
/// is `Unblocked`, so the dependent starts on a branch a failure put out, and the iteration ends
/// as failed all the same, because the cause the dependency carries is a failure.
#[test]
fn a_dependency_is_judged_by_its_state_and_the_tolerance_of_its_dependent() {
    let spent_budget = DEFAULT_MAX_ATTEMPTS;
    for (status, attempt, allows_failed, allows_skipped, expected) in [
        (TaskStatus::Completed, 1, false, false, DependencyVerdict::Unblocked),
        (TaskStatus::Completed, 1, true, true, DependencyVerdict::Unblocked),
        // A refusal with attempts to spare is coming back, so it is waited for either way.
        (TaskStatus::Failed, 1, false, false, DependencyVerdict::Blocked),
        (TaskStatus::Failed, 1, true, true, DependencyVerdict::Blocked),
        // A refusal that spent the budget is what `allows_failed` speaks about.
        (
            TaskStatus::Failed,
            spent_budget,
            false,
            true,
            DependencyVerdict::Skipped(SkipCause::FailedDependency),
        ),
        (
            TaskStatus::Failed,
            spent_budget,
            true,
            false,
            DependencyVerdict::Unblocked,
        ),
        // A skip is what `allows_skipped` speaks about, and the cause handed down is the
        // strongest one the dependency carries.
        (
            TaskStatus::Skipped(SkipCause::ExecutorDecision),
            1,
            true,
            false,
            DependencyVerdict::Skipped(SkipCause::SkippedDependency),
        ),
        (
            TaskStatus::Skipped(SkipCause::ExecutorDecision),
            1,
            false,
            true,
            DependencyVerdict::Unblocked,
        ),
        (
            TaskStatus::Skipped(SkipCause::SkippedDependency),
            1,
            true,
            false,
            DependencyVerdict::Skipped(SkipCause::SkippedDependency),
        ),
        (
            TaskStatus::Skipped(SkipCause::SkippedDependency),
            1,
            false,
            true,
            DependencyVerdict::Unblocked,
        ),
        (
            TaskStatus::Skipped(SkipCause::FailedDependency),
            1,
            true,
            false,
            DependencyVerdict::Skipped(SkipCause::FailedDependency),
        ),
        (
            TaskStatus::Skipped(SkipCause::FailedDependency),
            1,
            false,
            true,
            DependencyVerdict::Unblocked,
        ),
        // Nothing has settled yet, so there is nothing to tolerate.
        (TaskStatus::Todo, 0, true, true, DependencyVerdict::Blocked),
        (TaskStatus::Blocked, 0, true, true, DependencyVerdict::Blocked),
        (TaskStatus::Started, 1, true, true, DependencyVerdict::Blocked),
    ] {
        let dependency = dependency_in(status.clone(), attempt);
        let dependent = dependent_tolerating(DependencyTolerance {
            allows_failed,
            allows_skipped,
        });

        assert_eq!(
            dependent.judge_dependency(&dependency, Moment::now()),
            expected,
            "a dependency {status:?} judged by a dependent allowing failed: {allows_failed}, skipped: \
             {allows_skipped}"
        );
    }
}

/// The other half of the absolute bound: work finished past the lifetime is refused, so an
/// executor that ignored its cancellation cannot store a result the limit already ruled out.
///
/// Both sides of the boundary. Which side the instant itself belongs to is decided by the same
/// predicate this reads, asserted exactly in
/// `the_lifetime_deadline_belongs_to_the_task_until_the_moment_after_it`.
#[test]
fn a_task_cannot_be_completed_past_its_lifetime_deadline() {
    for (lifetime_left, is_accepted) in [(seconds(10), true), (seconds(-1), false)] {
        let mut task = expired_started_task(1, lifetime_left);

        let outcome = task.complete(b"done".to_vec());

        assert_eq!(
            outcome.is_ok(),
            is_accepted,
            "a lifetime deadline {lifetime_left:?} away: {outcome:?}"
        );
        assert_eq!(task.is_completed(), is_accepted);
    }
}

/// A task started for the first time at `now`, through its definition.
fn task_started_at(now: Moment, max_attempts: u32) -> Task {
    let def = TaskDefinition::new(TaskCode::new("t"), Duration::from_secs(5)).with_max_attempts(max_attempts);
    let mut task = Task::new(uuid_of(2), uuid_of(1), None, &def, Vec::new());
    task.start_at(uuid_of(3), now).unwrap();
    task
}

/// Refusal after refusal, a task is started exactly as often as its budget says.
#[test]
fn attempts_never_exceed_the_budget() {
    let now = Moment::now();
    let mut task = task_started_at(now, 3);
    for attempt in 1..=3 {
        assert_eq!(task.attempt(), attempt);
        task.fail_at("refused", TaskRetry::WhileBudgetLasts, now).unwrap();
        assert_eq!(task.can_be_picked_up_at(now), attempt < 3);
        assert_eq!(task.start_at(uuid_of(3), now).is_ok(), attempt < 3);
    }
    assert_eq!(task.attempt(), 3);
}

/// A task that failed for good is failed for good at every later moment.
#[test]
fn a_terminal_failure_lasts() {
    let now = Moment::now();
    let mut task = task_started_at(now, 1);
    task.fail_at("refused", TaskRetry::WhileBudgetLasts, now).unwrap();

    for later in [0, 1, 60, 1_000_000] {
        assert!(task.is_terminally_failed_at(after(now, later)));
        assert!(task.start_at(uuid_of(3), after(now, later)).is_err());
    }
}

/// Nothing happens to a task that completed or was skipped.
#[test]
fn a_completed_or_skipped_task_is_final() {
    let now = Moment::now();
    let mut completed = task_started_at(now, 5);
    completed.complete_at(b"done".to_vec(), now).unwrap();
    let mut skipped = task_started_at(now, 5);
    skipped.skip_at("pointless", SkipCause::ExecutorDecision, now).unwrap();

    for mut task in [completed, skipped] {
        let status = *task.status();
        assert_eq!(task.check_availability_at(after(now, 100)), TaskAvailability::Unavailable);
        assert!(task.start_at(uuid_of(3), now).is_err());
        assert!(task.complete_at(Vec::new(), now).is_err());
        assert!(task.skip_at("late", SkipCause::ExecutorDecision, now).is_err());
        assert!(task.fail_at("late", TaskRetry::Never, now).is_err());
        assert_eq!(*task.status(), status);
    }
}

/// Until the deadline, to the moment, a running task belongs to the worker that started it.
#[test]
fn a_running_task_belongs_to_one_worker_until_its_deadline() {
    let now = Moment::from_timestamp(1_893_499_200, 0).unwrap();
    let mut task = task_started_at(now, 5);
    assert_eq!(task.deadline_at(), Some(after(now, 5)));

    let error = task.start_at(uuid_of(4), after(now, 5)).unwrap_err();
    assert_eq!(error.message(), "task worker mismatch");
    let error = task.start_at(uuid_of(3), after(now, 5)).unwrap_err();
    assert_eq!(
        error.message(),
        "cannot start task (id: 00000000-0000-0000-0000-000000000002; code: t; status: Started; deadline at: \
         Some(2030-01-01T12:00:05Z))"
    );

    task.start_at(uuid_of(4), moved(after(now, 5), 1)).unwrap();
    assert_eq!(task.processing_by_worker(), Some(uuid_of(4)));
    assert_eq!(task.attempt(), 1);
}

#[test]
fn a_refused_transition_says_what_was_refused() {
    let now = Moment::now();
    let mut outlived = task_started_at(now, 5);
    assert_eq!(
        outlived.complete_at(Vec::new(), after(now, 26)).unwrap_err().message(),
        "cannot complete task (id: 00000000-0000-0000-0000-000000000002; code: t): it outlived its maximum \
         lifetime of 25000 ms"
    );
    assert_eq!(
        outlived
            .skip_at("late", SkipCause::ExecutorDecision, after(now, 26))
            .unwrap_err()
            .message(),
        "cannot skip task (id: 00000000-0000-0000-0000-000000000002; code: t): it outlived its maximum \
         lifetime of 25000 ms"
    );

    outlived.fail_at("late", TaskRetry::Never, after(now, 26)).unwrap();
    assert_eq!(
        outlived.fail_at("again", TaskRetry::Never, now).unwrap_err().message(),
        "cannot fail task (id: 00000000-0000-0000-0000-000000000002; code: t) with status Failed"
    );
}

/// A start whose deadline no date can name is refused with both spans, in milliseconds.
#[test]
fn an_undated_start_names_its_spans() {
    let mut task = Task::restore(RestoredTask {
        max_lifetime: TimeDelta::from_millis(i64::MAX).unwrap(),
        ..restored_task_fields()
    });

    assert_eq!(
        task.start(uuid_of(4)).unwrap_err().message(),
        "cannot start task (id: 00000000-0000-0000-0000-000000000002; code: t): its timeout of 5000 ms or its \
         maximum lifetime of 9223372036854775807 ms falls outside the range of dates"
    );
}

/// A tolerance says something only of a task that waits for others.
#[test]
fn a_tolerance_needs_dependencies_to_speak_of() {
    let tolerant = TaskDefinition::new(TaskCode::new("t"), Duration::from_secs(1)).with_dependency_tolerance(
        DependencyTolerance {
            allows_failed: true,
            allows_skipped: false,
        },
    );
    assert!(!tolerant.is_declares_tolerance_valid());

    let waiting = tolerant.with_dependencies(vec![jobmanager::task::TaskRef::created(uuid_of(9))]);
    assert!(waiting.is_declares_tolerance_valid());
    let plain = TaskDefinition::new(TaskCode::new("t"), Duration::from_secs(1));
    assert!(plain.is_declares_tolerance_valid());
}

/// The limit and the size are both named.
#[test]
fn an_oversized_input_names_both_sizes() {
    let def = TaskDefinition::new(TaskCode::new("t"), Duration::from_secs(1)).with_input(vec![0; 5]);
    let limits = TaskLimits {
        max_input_bytes: 4,
        max_output_bytes: 10,
    };

    assert_eq!(def.validate(limits).unwrap_err().message(), "task input size 5 exceeds limit 4");
}

/// A task that cannot be started is refused in words where nobody holds it or its own holder asks
/// again; only one that another worker holds is a mismatch. It is left as it was each time.
#[test]
fn only_a_held_task_is_refused_as_a_mismatch() {
    let definition = TaskDefinition::new(TaskCode::new("t"), Duration::from_secs(1));
    let mut blocked = Task::new(uuid_of(2), uuid_of(1), None, &definition, vec![uuid_of(3)]);

    let err = blocked.start(uuid_of(4)).unwrap_err();
    assert!(matches!(err, JobError::Other(_)));
    assert_eq!(
        err.message(),
        "cannot start task (id: 00000000-0000-0000-0000-000000000002; code: t; status: Blocked; deadline at: None)"
    );
    assert_eq!(*blocked.status(), TaskStatus::Blocked);
    assert_eq!(blocked.attempt(), 0);
    assert_eq!(blocked.processing_by_worker(), None);

    let mut held = Task::new(uuid_of(2), uuid_of(1), None, &definition, Vec::new());
    held.start(uuid_of(4)).unwrap();
    assert!(matches!(held.start(uuid_of(5)).unwrap_err(), JobError::TaskWorkerMismatch));
    assert!(matches!(held.start(uuid_of(4)).unwrap_err(), JobError::Other(_)));
    assert_eq!(held.attempt(), 1);
    assert_eq!(held.processing_by_worker(), Some(uuid_of(4)));
}

/// What answers for a failure is a dependent that waited for the task, declared that it survives its
/// failure, and came to an end of its own.
#[test]
fn a_failure_is_answered_for_by_a_tolerant_dependent_that_resolved_on_its_own() {
    for (status, allows_failed, expected) in [
        (TaskStatus::Completed, true, true),
        (TaskStatus::Skipped(SkipCause::ExecutorDecision), true, true),
        (TaskStatus::Skipped(SkipCause::SkippedDependency), true, false),
        (TaskStatus::Skipped(SkipCause::FailedDependency), true, false),
        (TaskStatus::Failed, true, false),
        (TaskStatus::Started, true, false),
        (TaskStatus::Completed, false, false),
    ] {
        let task = Task::restore(RestoredTask {
            status,
            tolerance: DependencyTolerance {
                allows_failed,
                allows_skipped: !allows_failed,
            },
            depends_on: vec![uuid_of(8), uuid_of(9)],
            ..restored_task_fields()
        });

        assert_eq!(task.answers_for(&uuid_of(9)), expected, "{status:?}, {allows_failed}");
        assert!(!task.answers_for(&uuid_of(7)));
    }
}
