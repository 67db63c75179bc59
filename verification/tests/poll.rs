//! Poll settings, and the schedule a worker polls its jobs by.

use jobmanager::code::JobCode;
use jobmanager::poll::{
    JobPassOutcome, PollSchedule, WorkerConfig, LONGEST_ACCEPTED_POLL_INTERVAL_SECS,
};
use jobmanager::time::{Duration, Moment, TimeDelta, LAST_MOMENT_SECS};

/// How many draws a test takes when it asserts on the spread of the jitter rather than on a single
/// value. A range of milliseconds has millions of nanoseconds in it, so this many equal draws does
/// not happen for any reason other than a jitter that is not drawn at all.
const JITTER_DRAWS: usize = 50;

fn config_with_jitter(jitter: Duration) -> WorkerConfig {
    config_polled_every(Duration::from_millis(100)).with_poll_jitter(jitter)
}

fn config_polled_every(interval: Duration) -> WorkerConfig {
    WorkerConfig::new()
        .with_poll_interval(interval)
        .expect("a positive poll interval is accepted")
}

fn longest_accepted_poll_interval() -> Duration {
    Duration::from_secs(LONGEST_ACCEPTED_POLL_INTERVAL_SECS)
}

fn seconds(count: i64) -> TimeDelta {
    TimeDelta::from_millis(count * 1000).unwrap()
}

fn after_now(delta: TimeDelta) -> Moment {
    Moment::now().checked_add_signed(delta).unwrap()
}

fn last_moment() -> Moment {
    Moment::from_timestamp(LAST_MOMENT_SECS, 999_999_999).unwrap()
}

/// A schedule and the clock it goes by.
struct ScheduledWorker {
    schedule: PollSchedule,
    started: std::time::Instant,
    job_count: usize,
}

impl ScheduledWorker {
    fn now(&self) -> Duration {
        let elapsed = self.started.elapsed();
        Duration::new(elapsed.as_secs(), elapsed.subsec_nanos()).unwrap()
    }

    fn schedule_next_poll(&mut self, job_code: &JobCode, outcome: JobPassOutcome) {
        let now = self.now();
        self.schedule.schedule_next_poll(job_code, outcome, now);
    }

    fn should_poll_job(&self, job_code: &JobCode) -> bool {
        self.schedule.should_poll_job(job_code, self.now())
    }

    fn calculate_wait_duration(&self) -> Duration {
        self.schedule.calculate_wait_duration(self.job_count, self.now())
    }
}

/// Base interval every scheduling test below measures against.
fn base_poll_interval() -> Duration {
    Duration::from_millis(100)
}

/// Slack allowed when comparing a scheduled moment: the moment is taken before the assertion, so the
/// delay measured is always a little shorter than the interval it was set from.
fn scheduling_slack() -> Duration {
    Duration::from_millis(50)
}

/// Jitter is off here: it has tests of its own, and a random addend would make every scheduled moment
/// below a range rather than a value.
fn worker_over_jobs(job_count: usize) -> ScheduledWorker {
    worker_over_jobs_with_config(
        job_count,
        config_polled_every(base_poll_interval()).with_poll_jitter(Duration::zero()),
    )
}

/// The same worker built with settings the test names itself, for the two rules whose oracle is a
/// setting: a ceiling or a jitter read back out of the config is the value the scheduler takes it
/// from, so the comparison would hold whatever that value became.
fn worker_over_jobs_with_config(job_count: usize, config: WorkerConfig) -> ScheduledWorker {
    ScheduledWorker {
        schedule: PollSchedule::new(config),
        started: std::time::Instant::now(),
        job_count,
    }
}

/// How long from now the worker will wait before polling `job_code` again.
fn scheduled_delay(worker: &ScheduledWorker, job_code: &JobCode) -> Duration {
    worker
        .schedule
        .next_poll(job_code)
        .expect("the job must have been scheduled")
        .saturating_sub(&worker.now())
}

fn assert_delay_near(actual: Duration, expected: Duration, what: &str) {
    assert!(
        actual <= expected && actual.checked_add(&scheduling_slack()).unwrap() >= expected,
        "{what}: got {actual:?}, expected about {expected:?}"
    );
}

/// Turning the jitter off must leave the poll interval as it is - a worker that waits longer
/// than it was configured to polls storage at half the rate its settings promise.
#[test]
fn a_zero_jitter_leaves_the_poll_interval_alone() {
    let config = config_with_jitter(Duration::zero());

    assert_eq!(
        config.calculate_jittered_wait(Duration::from_millis(100)),
        Duration::from_millis(100)
    );
}

/// The bound of the jitter is a `Duration` the caller picks freely, so the three cases around
/// a millisecond: below it, exactly it, and above it.
#[test]
fn a_sub_millisecond_jitter_stays_within_its_bound() {
    assert_jitter_within_bound(Duration::from_nanos(500_000));
}

#[test]
fn a_jitter_of_exactly_one_millisecond_stays_within_its_bound() {
    assert_jitter_within_bound(Duration::from_millis(1));
}

#[test]
fn a_multi_millisecond_jitter_stays_within_its_bound() {
    assert_jitter_within_bound(Duration::from_millis(5));
}

/// Draws repeatedly, because one draw says nothing about a bound: it asserts that every wait
/// lands in `[poll_interval, poll_interval + bound)` and that the jitter is really drawn.
fn assert_jitter_within_bound(bound: Duration) {
    let poll_interval = Duration::from_millis(100);
    let config = config_with_jitter(bound);

    let waits: Vec<Duration> = (0..JITTER_DRAWS)
        .map(|_| config.calculate_jittered_wait(poll_interval))
        .collect();

    for wait in &waits {
        assert!(
            (poll_interval..poll_interval.checked_add(&bound).unwrap()).contains(wait),
            "a wait of {wait:?} is outside the bound of {bound:?} on top of {poll_interval:?}"
        );
    }
    assert!(
        waits.iter().any(|wait| *wait != waits[0]),
        "every draw returned {:?}, so no jitter was added",
        waits[0]
    );
}

#[test]
fn a_pass_without_work_doubles_the_poll_interval() {
    let config = config_with_jitter(Duration::zero());

    assert_eq!(
        config.calculate_backed_off_poll_interval(Duration::from_millis(100)),
        Duration::from_millis(200)
    );
}

/// The backoff is what the maximum poll interval is a ceiling for, so it must stop there
/// instead of doubling past it.
#[test]
fn the_backoff_stops_at_the_maximum_poll_interval() {
    let config = config_with_jitter(Duration::zero())
        .with_max_poll_interval(Duration::from_millis(300))
        .expect("a ceiling above the base interval is accepted");

    assert_eq!(
        config.calculate_backed_off_poll_interval(Duration::from_millis(200)),
        Duration::from_millis(300)
    );
}

/// A worker given a zero interval polls storage without ever pausing, which saturates a core
/// and bills for an unbounded number of requests.
#[test]
fn a_zero_poll_interval_is_rejected() {
    let Err(error) = WorkerConfig::new().with_poll_interval(Duration::zero()) else {
        panic!("a zero poll interval must be rejected")
    };

    assert!(
        error.message().contains("poll interval must be positive"),
        "got: {error:?}"
    );
}

/// The maximum is the ceiling the backoff climbs to, so a value below the base would turn the
/// backoff into a speed-up.
#[test]
fn a_maximum_poll_interval_below_the_poll_interval_is_rejected() {
    let Err(error) =
        config_polled_every(Duration::from_millis(200)).with_max_poll_interval(Duration::from_millis(100))
    else {
        panic!("a ceiling below the base interval must be rejected")
    };

    assert!(
        error.message().contains("max poll interval must not be below"),
        "got: {error:?}"
    );
}

/// The same pair named in the other order: a config accepting it either way would depend on
/// which setting its caller happened to name first.
#[test]
fn a_poll_interval_above_a_named_maximum_is_rejected() {
    let named_ceiling = config_polled_every(Duration::from_millis(50))
        .with_max_poll_interval(Duration::from_millis(100))
        .expect("a ceiling above the base interval is accepted");

    let Err(error) = named_ceiling.with_poll_interval(Duration::from_millis(200)) else {
        panic!("a base interval above the named ceiling must be rejected")
    };

    assert!(
        error.message().contains("max poll interval must not be below"),
        "got: {error:?}"
    );
}

/// A ceiling equal to the base is what a job polled exactly as rarely as it backs off asks for,
/// so it has to pass rather than sit on the wrong side of the comparison.
#[test]
fn a_maximum_poll_interval_equal_to_the_poll_interval_is_accepted() {
    let config = config_polled_every(Duration::from_secs(10))
        .with_max_poll_interval(Duration::from_secs(10))
        .expect("a ceiling equal to the base interval is accepted");

    assert_eq!(config.max_poll_interval(), Duration::from_secs(10));
}

/// An unnamed ceiling is the poll interval multiplied, so a rarely polled pool still has room
/// to back off; a fixed ceiling would sit at or below such an interval and cancel the backoff.
#[test]
fn an_unnamed_maximum_poll_interval_scales_with_a_long_poll_interval() {
    let config = config_polled_every(Duration::from_secs(5));

    assert_eq!(config.max_poll_interval(), Duration::from_secs(50));
}

/// The same rule at the other end of the range: a frequently polled pool gets a ceiling as
/// close as its interval is, rather than one named for a pool polled at another rate.
#[test]
fn an_unnamed_maximum_poll_interval_scales_with_a_short_poll_interval() {
    let config = config_polled_every(Duration::from_millis(10));

    assert_eq!(config.max_poll_interval(), Duration::from_millis(100));
}

/// The scheduler multiplies, doubles and adds intervals to an `Instant`, and every one of those
/// panics on overflow - so an interval it cannot compute with is refused at the boundary rather
/// than taken down the pass that crashes the worker.
#[test]
fn a_poll_interval_above_the_longest_accepted_one_is_rejected() {
    let Err(error) = WorkerConfig::new().with_poll_interval(Duration::longest()) else {
        panic!("a poll interval past the accepted range must be rejected")
    };

    assert!(
        error.message().contains("poll interval must not exceed"),
        "got: {error:?}"
    );
}

/// The ceiling is an interval the scheduler computes with just as the base one is, so it is
/// held to the same range - naming it is not a way around the bound.
#[test]
fn a_maximum_poll_interval_above_the_longest_accepted_one_is_rejected() {
    let Err(error) = WorkerConfig::new().with_max_poll_interval(Duration::longest()) else {
        panic!("a ceiling past the accepted range must be rejected")
    };

    assert!(
        error.message().contains("max poll interval must not exceed"),
        "got: {error:?}"
    );
}

/// The accepted range and the default factor are two halves of one rule: the ceiling derived
/// from the longest accepted interval is doubled again by the backoff, and neither step may
/// leave `Duration` behind. Raising either constant without the other panics here.
#[test]
fn the_longest_accepted_poll_interval_survives_the_backoff_arithmetic() {
    let config = config_polled_every(longest_accepted_poll_interval());
    let ceiling = config.max_poll_interval();

    assert_eq!(config.calculate_backed_off_poll_interval(ceiling), ceiling);
}

/// A pool polled rarely still backs off: the default ceiling is a multiple of the interval, so
/// doubling it is not cut back to the interval itself.
#[test]
fn a_backoff_grows_at_a_poll_interval_above_the_old_default() {
    let config = config_polled_every(Duration::from_secs(5));

    assert_eq!(
        config.calculate_backed_off_poll_interval(Duration::from_secs(5)),
        Duration::from_secs(10)
    );
}

#[test]
fn a_pass_with_work_schedules_the_next_poll_at_the_base_interval() {
    let job_code = JobCode::new("worked_job");
    let mut worker = worker_over_jobs(1);

    worker.schedule_next_poll(&job_code, JobPassOutcome::Stalled);
    worker.schedule_next_poll(&job_code, JobPassOutcome::Processed);

    assert_delay_near(
        scheduled_delay(&worker, &job_code),
        base_poll_interval(),
        "a pass that moved the job must schedule the next poll at the base interval",
    );
}

/// The backoff step a job carries is dropped back to the base interval by a pass that moved it,
/// and only the next stalled pass reads that step: without the reset, a job that was idle for a
/// while would go on backing off from where it left off, however much work it has since done.
#[test]
fn a_pass_with_work_resets_the_backoff_step_of_its_job() {
    let job_code = JobCode::new("resumed_job");
    let mut worker = worker_over_jobs(1);

    worker.schedule_next_poll(&job_code, JobPassOutcome::Stalled);
    worker.schedule_next_poll(&job_code, JobPassOutcome::Stalled);
    worker.schedule_next_poll(&job_code, JobPassOutcome::Processed);
    worker.schedule_next_poll(&job_code, JobPassOutcome::Stalled);

    assert_delay_near(
        scheduled_delay(&worker, &job_code),
        base_poll_interval().checked_mul(2).unwrap(),
        "the stalled pass must back off from the base interval the pass with work restored",
    );
}

#[test]
fn a_stalled_pass_doubles_the_interval_of_that_job() {
    let job_code = JobCode::new("idle_job");
    let mut worker = worker_over_jobs(1);

    worker.schedule_next_poll(&job_code, JobPassOutcome::Stalled);

    assert_delay_near(
        scheduled_delay(&worker, &job_code),
        base_poll_interval().checked_mul(2).unwrap(),
        "a stalled pass must back the job's own interval off",
    );
}

/// Ceiling the two tests below name for themselves, so what they compare against is a value of
/// the test rather than one the scheduler derives from the same config it reads. Three times
/// [`base_poll_interval`], so the second stalled pass is already held down to it.
fn named_ceiling() -> Duration {
    Duration::from_millis(300)
}

/// Settings whose backoff stops at [`named_ceiling`].
fn config_capped_at_the_named_ceiling() -> WorkerConfig {
    config_polled_every(base_poll_interval())
        .with_max_poll_interval(named_ceiling())
        .expect("a ceiling above the base interval is accepted")
        .with_poll_jitter(Duration::zero())
}

/// The ceiling bounds the job's own step, not just the formula: a scheduler that doubled the
/// step itself would push a quiet job past the rate its pool was configured to poll at.
#[test]
fn the_backoff_step_stops_at_the_ceiling_the_config_names() {
    let job_code = JobCode::new("capped_job");
    let mut worker = worker_over_jobs_with_config(
        1,
        config_capped_at_the_named_ceiling(),
    );

    // Four passes: the step reaches the ceiling on the second and has to stay there for the
    // two after it.
    for _ in 0..4 {
        worker.schedule_next_poll(&job_code, JobPassOutcome::Stalled);
    }

    assert_delay_near(
        scheduled_delay(&worker, &job_code),
        named_ceiling(),
        "the backoff must stop at the ceiling the config was given",
    );
}

/// The backoff of one job must not reach another: a pool running a busy job beside an idle one
/// must neither hold both at the base interval nor both at the ceiling.
#[test]
fn the_backoff_of_an_idle_job_does_not_reach_a_busy_one() {
    let idle = JobCode::new("idle_neighbour");
    let busy = JobCode::new("busy_neighbour");
    let mut worker = worker_over_jobs(2);

    worker.schedule_next_poll(&idle, JobPassOutcome::Stalled);
    worker.schedule_next_poll(&idle, JobPassOutcome::Stalled);
    worker.schedule_next_poll(&busy, JobPassOutcome::Processed);

    assert_delay_near(
        scheduled_delay(&worker, &busy),
        base_poll_interval(),
        "the busy job keeps the base interval",
    );
    assert!(
        scheduled_delay(&worker, &idle) > base_poll_interval(),
        "the idle job must have backed off independently"
    );
}

/// A completed job costs nothing until its next iteration is
/// allowed to begin.
#[test]
fn a_completed_job_is_polled_when_its_next_iteration_is_due() {
    let job_code = JobCode::new("scheduled_job");
    let mut worker = worker_over_jobs(1);

    worker.schedule_next_poll(
        &job_code,
        JobPassOutcome::NextIterationDueAt(after_now(seconds(30))),
    );

    assert_delay_near(
        scheduled_delay(&worker, &job_code),
        Duration::from_secs(30),
        "a job due in thirty seconds must not be polled before then",
    );
}

/// A moment already past is polled at once: the job is due, and the pass that starts its
/// iteration is the one thing that can move it.
#[test]
fn a_due_moment_in_the_past_schedules_an_immediate_poll() {
    let job_code = JobCode::new("overdue_job");
    let mut worker = worker_over_jobs(1);

    worker.schedule_next_poll(
        &job_code,
        JobPassOutcome::NextIterationDueAt(after_now(seconds(-30))),
    );

    assert_eq!(
        scheduled_delay(&worker, &job_code),
        Duration::zero(),
        "an overdue job must not be made to wait"
    );
}

/// Moment the job below is due at: inside the base interval, and far enough from it that the slack of the comparison cannot bridge the two.
fn due_sooner_than_base() -> Duration {
    Duration::from_millis(10)
}

/// The delay is not raised to the base interval: a job whose iterations come round faster than the
/// pool polls would start every one of them late, by the difference.
#[test]
fn a_moment_due_sooner_than_the_base_interval_is_not_delayed_to_it() {
    let job_code = JobCode::new("soon_due_job");
    let mut worker = worker_over_jobs(1);

    worker.schedule_next_poll(
        &job_code,
        JobPassOutcome::NextIterationDueAt(
            after_now(TimeDelta::from_std(due_sooner_than_base()).expect("the test delay must convert")),
        ),
    );

    assert_delay_near(
        scheduled_delay(&worker, &job_code),
        due_sooner_than_base(),
        "a job due before the next base interval must be polled when it is due",
    );
}

/// A moment an executor sets through `JobHandle::set_next_start_at` passes no boundary check,
/// unlike a configured interval, and the scheduler adds it to an `Instant`, which panics on
/// overflow. The furthest moment a `DateTime` can hold is therefore scheduled as the longest
/// interval a worker accepts.
#[test]
fn a_moment_beyond_the_longest_accepted_interval_is_scheduled_at_it() {
    let job_code = JobCode::new("far_future_job");
    let mut worker = worker_over_jobs(1);

    worker.schedule_next_poll(&job_code, JobPassOutcome::NextIterationDueAt(last_moment()));

    assert_delay_near(
        scheduled_delay(&worker, &job_code),
        longest_accepted_poll_interval(),
        "a moment past the accepted range must be capped at it",
    );
}

/// The counterpart of the reset a pass with work makes: a pass that found the next iteration
/// scheduled moved nothing either, but it learned exactly when the job is worth polling again,
/// so the step it carried into that pass has answered for nothing and must not survive it.
#[test]
fn a_pass_that_found_the_next_iteration_scheduled_resets_the_backoff_step() {
    let job_code = JobCode::new("rescheduled_job");
    let mut worker = worker_over_jobs(1);

    worker.schedule_next_poll(&job_code, JobPassOutcome::Stalled);
    worker.schedule_next_poll(&job_code, JobPassOutcome::Stalled);
    worker.schedule_next_poll(
        &job_code,
        JobPassOutcome::NextIterationDueAt(after_now(seconds(30))),
    );
    worker.schedule_next_poll(&job_code, JobPassOutcome::Stalled);

    assert_delay_near(
        scheduled_delay(&worker, &job_code),
        base_poll_interval().checked_mul(2).unwrap(),
        "the stalled pass must back off from the base interval the scheduled pass restored",
    );
}

#[test]
fn an_exhausted_job_is_not_polled_again() {
    let job_code = JobCode::new("exhausted_job");
    let mut worker = worker_over_jobs(1);

    worker.schedule_next_poll(&job_code, JobPassOutcome::IterationBudgetSpent);

    assert!(
        !worker.should_poll_job(&job_code),
        "an exhausted job must not be polled"
    );
}

/// Both
/// sides of the moment are asserted: a job scheduled ahead is skipped, one whose moment has
/// passed is polled.
#[test]
fn a_job_is_polled_only_once_its_scheduled_moment_has_passed() {
    let job_code = JobCode::new("gated_job");
    let mut worker = worker_over_jobs(1);

    worker.schedule_next_poll(
        &job_code,
        JobPassOutcome::NextIterationDueAt(after_now(seconds(30))),
    );
    assert!(
        !worker.should_poll_job(&job_code),
        "a job due in thirty seconds must not be polled yet"
    );

    worker.schedule_next_poll(
        &job_code,
        JobPassOutcome::NextIterationDueAt(after_now(seconds(-1))),
    );
    assert!(
        worker.should_poll_job(&job_code),
        "a job whose moment has passed must be polled"
    );
}

/// The wait is what turns per-job scheduling into saved requests: a worker that kept waking on
/// a fixed interval would poll nothing and still burn a pass.
#[test]
fn the_wait_lasts_until_the_nearest_scheduled_poll() {
    let near = JobCode::new("near_job");
    let far = JobCode::new("far_job");
    let mut worker = worker_over_jobs(2);

    worker.schedule_next_poll(
        &far,
        JobPassOutcome::NextIterationDueAt(after_now(seconds(30))),
    );
    worker.schedule_next_poll(&near, JobPassOutcome::Processed);

    assert_delay_near(
        worker.calculate_wait_duration(),
        base_poll_interval(),
        "the wait must end when the nearest job is due",
    );
}

/// A job the worker has not polled yet has no scheduled moment, so it must not be waited past.
#[test]
fn an_unpolled_job_keeps_the_base_wait() {
    let scheduled = JobCode::new("scheduled_neighbour");
    let unpolled = JobCode::new("unpolled_neighbour");
    let mut worker = worker_over_jobs(2);

    worker.schedule_next_poll(
        &scheduled,
        JobPassOutcome::NextIterationDueAt(after_now(seconds(30))),
    );

    assert_delay_near(
        worker.calculate_wait_duration(),
        base_poll_interval(),
        "a job that was never polled must be polled on the next step",
    );
}

/// Jitter of the wait below: half the base interval, which is orders of magnitude above the
/// time the draws themselves take, so a wait that was not spread cannot pass for a spread one.
fn wait_jitter() -> Duration {
    Duration::from_millis(50)
}

/// The jitter is not cosmetic: it is the only thing that spreads the moment every worker of
/// every pool wakes to one scheduled job, and all but one of them pay a rejected write for
/// waking together (see [`WorkerConfig::poll_jitter`]).
///
/// One job is left unpolled, which is what makes the wait the configured interval itself rather
/// than the remainder until a scheduled moment: the remainder is measured against the clock on
/// every call, so the draws would differ with no jitter at all.
#[test]
fn the_wait_between_passes_is_spread_by_the_jitter() {
    let scheduled = JobCode::new("jittered_neighbour");
    let unpolled = JobCode::new("unpolled_jittered_neighbour");
    let mut worker = worker_over_jobs_with_config(
        2,
        config_polled_every(base_poll_interval()).with_poll_jitter(wait_jitter()),
    );
    worker.schedule_next_poll(&scheduled, JobPassOutcome::Processed);

    let waits: Vec<Duration> = (0..JITTER_DRAWS).map(|_| worker.calculate_wait_duration()).collect();

    for wait in &waits {
        assert!(
            (base_poll_interval()..base_poll_interval().checked_add(&wait_jitter()).unwrap()).contains(wait),
            "a wait of {wait:?} is outside the jitter of {:?} on top of {:?}",
            wait_jitter(),
            base_poll_interval()
        );
    }
    assert!(
        waits.iter().any(|wait| *wait != waits[0]),
        "every wait was {:?}, so the workers were not spread at all",
        waits[0]
    );
}

#[test]
fn a_worker_whose_jobs_are_all_exhausted_waits_the_ceiling() {
    let job_code = JobCode::new("spent_job");
    let mut worker = worker_over_jobs_with_config(
        1,
        config_capped_at_the_named_ceiling(),
    );

    worker.schedule_next_poll(&job_code, JobPassOutcome::IterationBudgetSpent);

    assert_delay_near(
        worker.calculate_wait_duration(),
        named_ceiling(),
        "a worker with nothing to poll must wait the ceiling it was given",
    );
}

