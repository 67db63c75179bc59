//! When workers wait, poll, retry and clean up, as callers see it.

use vstd::prelude::*;

use crate::cleaner::{
    iterations_to_delete, plan_sweep, retry_step, stops_cleanup, JobCleanerConfig,
    JobIterationStarted,
};
use crate::code::JobCode;
use crate::error::{
    Error, InternalError, InternalErrorView, StorageError, StorageErrorKind,
};
use crate::manager::{
    advance_finished_iteration, awaited_iteration, worker_start_delay, FinishedIterations,
    JobsManagerConfig,
};
use crate::poll::{
    calculate_duration_until, calculate_duration_until_at, nearest_wait, JobPassOutcome, PollPlanView, PollSchedule,
    WorkerConfig, WorkerConfigView,
};
use crate::registry::JobRegistry;
use crate::retrier::{
    Retrier, RetrierConfig, RetrierConfigView, RetryAction, RetryError, RetryEvent, RetryStep,
    NANOS_PER_MILLI,
};
use crate::time::{is_dated, Duration, Moment};

verus! {

// Settings

/// Nanoseconds in a year of 365 days.
pub open spec fn a_year() -> int {
    365int * 24 * 3600 * 1_000_000_000
}

/// Nanoseconds in a millisecond.
pub open spec fn a_millisecond() -> int {
    1_000_000
}

/// The interval polling backs off to: the one named, or ten times the base.
pub open spec fn is_ceiling(config: WorkerConfigView, ceiling: int) -> bool {
    &&& config.max_poll_interval matches Some(named) ==> ceiling == named
    &&& config.max_poll_interval is None ==> ceiling == 10 * config.poll_interval
}

/// Whether these are the twenty attempts a worker makes, a jittered while apart.
pub open spec fn is_patient(policy: RetrierConfigView) -> bool {
    &&& policy.max_attempts == 20
    &&& policy.rand_delay == 50 * a_millisecond()
    &&& policy.delays.len() == 10
    &&& policy.delays[0] == 50 * a_millisecond()
    &&& policy.delays[1] == 50 * a_millisecond()
    &&& policy.delays[2] == 50 * a_millisecond()
    &&& policy.delays[3] == 100 * a_millisecond()
    &&& policy.delays[4] == 300 * a_millisecond()
    &&& policy.delays[5] == 500 * a_millisecond()
    &&& policy.delays[6] == 1_000 * a_millisecond()
    &&& policy.delays[7] == 5_000 * a_millisecond()
    &&& policy.delays[8] == 10_000 * a_millisecond()
    &&& policy.delays[9] == 60_000 * a_millisecond()
}

/// Whether these are the three attempts a cleanup makes.
pub open spec fn is_brief(policy: RetrierConfigView) -> bool {
    &&& policy.max_attempts == 3
    &&& policy.rand_delay == 50 * a_millisecond()
    &&& policy.delays.len() == 3
    &&& policy.delays[0] == 50 * a_millisecond()
    &&& policy.delays[1] == 300 * a_millisecond()
    &&& policy.delays[2] == 2_000 * a_millisecond()
}

/// Whether a worker polls five times a second, a little jittered, with no ceiling named.
pub open spec fn is_usual(config: WorkerConfigView) -> bool {
    &&& config.poll_interval == 200 * a_millisecond()
    &&& config.poll_jitter == 50 * a_millisecond()
    &&& config.max_poll_interval is None
    &&& is_patient(config.retrier_config)
}

/// What holds where nothing else is named: one worker that polls as usual and cleans up briefly.
pub proof fn law_defaults(
    config: WorkerConfig,
    policy: RetrierConfig,
    cleaner: JobCleanerConfig,
    manager: JobsManagerConfig,
)
    ensures
        call_ensures(WorkerConfig::new, (), config) ==> is_usual(config@),
        call_ensures(WorkerConfig::default, (), config) ==> is_usual(config@),
        call_ensures(RetrierConfig::default, (), policy) ==> is_patient(policy@),
        call_ensures(JobCleanerConfig::default, (), cleaner) ==> cleaner.enabled && is_brief(
            cleaner.retrier_config@,
        ),
        call_ensures(JobsManagerConfig::default, (), manager) ==> manager.worker_count == 1
            && is_usual(manager.worker_config@) && manager.cleaner_config.enabled && is_brief(
            manager.cleaner_config.retrier_config@,
        ),
{
}

/// A base interval is taken exactly where it is positive, no longer than a year and no longer than the
/// ceiling that was named; it changes nothing else.
pub proof fn law_poll_interval_is_checked(
    config: WorkerConfig,
    interval: Duration,
    set: Result<WorkerConfig, Error>,
)
    requires
        call_ensures(WorkerConfig::with_poll_interval, (config, interval), set),
    ensures
        interval@ >= 0 ==> (set is Ok <==> 0 < interval@ <= a_year() && (
        config@.max_poll_interval matches Some(ceiling) ==> interval@ <= ceiling)),
        set matches Ok(changed) ==> {
            &&& changed@.poll_interval == interval@
            &&& changed@.poll_jitter == config@.poll_jitter
            &&& changed@.max_poll_interval == config@.max_poll_interval
            &&& changed@.retrier_config == config@.retrier_config
        },
{
}

/// A ceiling is taken exactly where it is no shorter than the base interval and no longer than a year;
/// it changes nothing else.
pub proof fn law_max_poll_interval_is_checked(
    config: WorkerConfig,
    ceiling: Duration,
    set: Result<WorkerConfig, Error>,
)
    requires
        call_ensures(WorkerConfig::with_max_poll_interval, (config, ceiling), set),
    ensures
        set is Ok <==> config@.poll_interval <= ceiling@ <= a_year(),
        set matches Ok(changed) ==> {
            &&& changed@.max_poll_interval == Some(ceiling@)
            &&& changed@.poll_interval == config@.poll_interval
            &&& changed@.poll_jitter == config@.poll_jitter
            &&& changed@.retrier_config == config@.retrier_config
        },
{
}

/// The jitter and the retry policy are replaced alone, and what was set is read back.
pub proof fn law_settings_are_read_back(
    config: WorkerConfig,
    span: Duration,
    policy: RetrierConfig,
    found: &RetrierConfig,
    changed: WorkerConfig,
)
    ensures
        call_ensures(WorkerConfig::with_poll_jitter, (config, span), changed)
            ==> changed@.poll_jitter == span@ && changed@.poll_interval == config@.poll_interval
            && changed@.max_poll_interval == config@.max_poll_interval && changed@.retrier_config
            == config@.retrier_config,
        call_ensures(WorkerConfig::with_retrier, (config, policy), changed)
            ==> changed@.retrier_config == policy@ && changed@.poll_jitter == config@.poll_jitter
            && changed@.poll_interval == config@.poll_interval && changed@.max_poll_interval
            == config@.max_poll_interval,
        call_ensures(WorkerConfig::poll_interval, (&config,), span) ==> span@
            == config@.poll_interval && 0 < span@ <= a_year(),
        call_ensures(WorkerConfig::poll_jitter, (&config,), span) ==> span@ == config@.poll_jitter,
        call_ensures(WorkerConfig::max_poll_interval, (&config,), span) ==> is_ceiling(
            config@,
            span@,
        ) && config@.poll_interval <= span@,
        call_ensures(WorkerConfig::retrier_config, (&config,), found) ==> found@
            == config@.retrier_config,
        call_ensures(WorkerConfig::clone, (&config,), changed) ==> changed@ == config@,
{
}

// Waiting

/// Time left from `now` until the plan falls due, nothing where it already has.
pub open spec fn left_until(plan: PollPlanView, now: int) -> int {
    if plan.next_poll > now {
        plan.next_poll - now
    } else {
        0
    }
}

/// Whether the job of this code has a plan by which it is still polled.
pub open spec fn is_planned(schedule: &PollSchedule, code: Seq<char>) -> bool {
    schedule.plans().contains_key(code) && !schedule.plans()[code].exhausted
}

/// The nearest wait is a least one.
proof fn lemma_nearest_wait(codes: Seq<Seq<char>>, plans: Map<Seq<char>, PollPlanView>, now: int)
    ensures
        match nearest_wait(codes, plans, now) {
            None => forall|i: int|
                0 <= i < codes.len() ==> (#[trigger] plans[codes[i]]).exhausted,
            Some(wait) => {
                &&& forall|i: int|
                    0 <= i < codes.len() && !(#[trigger] plans[codes[i]]).exhausted ==> wait
                        <= left_until(plans[codes[i]], now)
                &&& exists|i: int|
                    0 <= i < codes.len() && !(#[trigger] plans[codes[i]]).exhausted && wait
                        == left_until(plans[codes[i]], now)
            },
        },
    decreases codes.len(),
{
    if codes.len() > 0 {
        let before = codes.drop_last();
        lemma_nearest_wait(before, plans, now);
        assert forall|i: int| 0 <= i < before.len() implies #[trigger] plans[before[i]]
            == plans[codes[i]] by {}
        assert(codes[codes.len() - 1] == codes.last());
        assert forall|i: int| 0 <= i < codes.len() && i != codes.len() - 1 implies codes[i]
            == before[i] by {}
        match nearest_wait(before, plans, now) {
            Some(wait) => {
                let i = choose|i: int|
                    0 <= i < before.len() && !(#[trigger] plans[before[i]]).exhausted && wait
                        == left_until(plans[before[i]], now);
                assert(!plans[codes[i]].exhausted && wait == left_until(plans[codes[i]], now));
            },
            None => {},
        }
        assert forall|i: int|
            0 <= i < codes.len() && !(#[trigger] plans[codes[i]]).exhausted implies nearest_wait(
            codes,
            plans,
            now,
        ) is Some && nearest_wait(codes, plans, now)->Some_0 <= left_until(plans[codes[i]], now) by {
            if i < codes.len() - 1 {
                assert(plans[before[i]] == plans[codes[i]]);
            }
        }
        if nearest_wait(codes, plans, now) is Some && !plans[codes.last()].exhausted {
            assert(!plans[codes[codes.len() - 1]].exhausted);
        }
    }
}

/// Where every job has a plan and some plan is not exhausted, the wait is no longer than the time left
/// until any plan that is not exhausted falls due, and equals that time for one of them.
pub proof fn law_wait_lasts_until_the_nearest_plan(
    schedule: &PollSchedule,
    job_count: usize,
    now: Duration,
    wait: Duration,
)
    requires
        schedule.well_formed(),
        call_ensures(PollSchedule::calculate_poll_interval, (schedule, job_count, now), wait),
        job_count <= schedule.plans().dom().len(),
        exists|code: Seq<char>| #[trigger] is_planned(schedule, code),
    ensures
        forall|code: Seq<char>| #[trigger]
            is_planned(schedule, code) ==> wait@ <= left_until(schedule.plans()[code], now@),
        exists|code: Seq<char>| #[trigger]
            is_planned(schedule, code) && wait@ == left_until(schedule.plans()[code], now@),
{
    let codes = schedule.codes();
    let plans = schedule.plans();
    schedule.law_codes_name_the_plans();
    lemma_nearest_wait(codes, plans, now@);
    let some = choose|code: Seq<char>| #[trigger] is_planned(schedule, code);
    assert(codes.contains(some));
    let k = choose|k: int| 0 <= k < codes.len() && codes[k] == some;
    assert(!plans[codes[k]].exhausted);
    assert forall|code: Seq<char>| #[trigger] is_planned(schedule, code) implies wait@
        <= left_until(plans[code], now@) by {
        assert(codes.contains(code));
        let i = choose|i: int| 0 <= i < codes.len() && codes[i] == code;
        assert(!plans[codes[i]].exhausted);
    }
    let i = choose|i: int|
        0 <= i < codes.len() && !(#[trigger] plans[codes[i]]).exhausted && wait@ == left_until(
            plans[codes[i]],
            now@,
        );
    assert(codes.contains(codes[i]));
    assert(is_planned(schedule, codes[i]));
}

/// While some job has no plan the wait is the base interval, and where every job has one and all are
/// exhausted it is the ceiling.
pub proof fn law_wait_without_a_plan_to_wait_for(
    schedule: &PollSchedule,
    job_count: usize,
    now: Duration,
    wait: Duration,
)
    requires
        schedule.well_formed(),
        call_ensures(PollSchedule::calculate_poll_interval, (schedule, job_count, now), wait),
    ensures
        schedule.plans().dom().len() < job_count ==> wait@ == schedule.config().poll_interval,
        schedule.plans().dom().len() >= job_count && (forall|code: Seq<char>|
            !#[trigger] is_planned(schedule, code)) ==> is_ceiling(schedule.config(), wait@),
{
    let codes = schedule.codes();
    let plans = schedule.plans();
    schedule.law_codes_name_the_plans();
    lemma_nearest_wait(codes, plans, now@);
    if nearest_wait(codes, plans, now@) is Some {
        let i = choose|i: int| 0 <= i < codes.len() && !(#[trigger] plans[codes[i]]).exhausted;
        assert(codes.contains(codes[i]));
        assert(is_planned(schedule, codes[i]));
    }
}

/// A worker waits what the schedule says, and longer by less than the jitter.
pub proof fn law_jitter_only_lengthens_the_wait(
    schedule: &PollSchedule,
    config: &WorkerConfig,
    job_count: usize,
    now: Duration,
    interval: Duration,
    jitter: u64,
    wait: Duration,
)
    ensures
        call_ensures(PollSchedule::calculate_poll_interval, (schedule, job_count, now), interval)
            && call_ensures(PollSchedule::calculate_wait_duration, (schedule, job_count, now), wait)
            ==> interval@ <= wait@ && (wait@ < interval@ + schedule.config().poll_jitter || wait@
            == interval@),
        call_ensures(WorkerConfig::calculate_jittered_wait, (config, interval), wait) ==> interval@
            <= wait@ && (wait@ < interval@ + config@.poll_jitter || wait@ == interval@),
        call_ensures(WorkerConfig::wait_with_jitter, (config, interval, jitter), wait) ==> wait@
            - interval@ == jitter,
{
}

/// After a pass that moved nothing the interval doubles up to the ceiling.
pub proof fn law_idle_interval_doubles_up_to_the_ceiling(
    config: &WorkerConfig,
    last: Duration,
    ceiling: int,
    interval: Duration,
)
    requires
        call_ensures(WorkerConfig::calculate_backed_off_poll_interval, (config, last), interval),
        is_ceiling(config@, ceiling),
    ensures
        interval@ <= ceiling,
        interval@ <= last@ + last@,
        interval@ == ceiling || interval@ == last@ + last@,
{
}

/// The time until a moment is what is missing to it, nothing where it passed, and never over a year.
pub proof fn law_time_until_a_moment(moment: Moment, now: Moment, span: Duration)
    requires
        call_ensures(calculate_duration_until_at, (moment, now), span),
    ensures
        0 <= span@ <= a_year(),
        now@ <= moment@ <= now@ + a_year() ==> now@ + span@ == moment@,
        moment@ < now@ ==> span@ == 0,
        now@ + a_year() < moment@ ==> span@ == a_year(),
{
}

/// The same with the clock read at some moment.
pub proof fn law_time_until_a_moment_by_the_clock(moment: Moment, span: Duration)
    requires
        call_ensures(calculate_duration_until, (moment,), span),
    ensures
        exists|now: int| #[trigger]
            is_dated(now) && 0 <= span@ <= a_year() && (now <= moment@ <= now + a_year() ==> now
                + span@ == moment@) && (moment@ < now ==> span@ == 0) && (now + a_year() < moment@
                ==> span@ == a_year()),
{
}

// Polling

/// Whether `after` has, beside the plan of this code, the plans of `before`, and its settings.
pub open spec fn plans_alone(before: &PollSchedule, after: &PollSchedule, code: Seq<char>) -> bool {
    &&& after.config() == before.config()
    &&& after.plans().contains_key(code)
    &&& forall|other: Seq<char>|
        other != code ==> (#[trigger] after.plans().contains_key(other)
            <==> before.plans().contains_key(other))
    &&& forall|other: Seq<char>|
        other != code && #[trigger] after.plans().contains_key(other) ==> after.plans()[other]
            == before.plans()[other]
}

/// Whether `plan` is what follows, for a job whose plan was `before`, on a pass that ended like this at
/// `now`, the wall clock showing `wall`.
pub open spec fn is_next_plan(
    config: WorkerConfigView,
    before: Option<PollPlanView>,
    plan: PollPlanView,
    outcome: JobPassOutcome,
    now: int,
    wall: int,
) -> bool {
    let last = match before {
        Some(before) => before.poll_interval,
        None => config.poll_interval,
    };
    &&& match outcome {
        JobPassOutcome::IterationBudgetSpent => plan.exhausted,
        _ => plan.exhausted == (before is Some && before->Some_0.exhausted),
    }
    &&& match outcome {
        JobPassOutcome::IterationBudgetSpent => plan.poll_interval == last && plan.next_poll == (
        match before {
            Some(before) => before.next_poll,
            None => now,
        }),
        JobPassOutcome::Processed => plan.poll_interval == config.poll_interval && plan.next_poll
            - now == config.poll_interval,
        JobPassOutcome::Stalled => {
            &&& plan.next_poll - now == plan.poll_interval
            &&& plan.poll_interval <= last + last
            &&& forall|ceiling: int| #[trigger]
                is_ceiling(config, ceiling) ==> plan.poll_interval <= ceiling && (plan.poll_interval
                    == ceiling || plan.poll_interval == last + last)
        },
        JobPassOutcome::NextIterationDueAt(due) => {
            &&& plan.poll_interval == config.poll_interval
            &&& wall <= due@ <= wall + a_year() ==> plan.next_poll - now == due@ - wall
            &&& due@ < wall ==> plan.next_poll == now
            &&& due@ > wall + a_year() ==> plan.next_poll - now == a_year()
        },
    }
}

/// The plan of a job in a schedule, where it has one.
pub open spec fn plan_of(schedule: &PollSchedule, code: Seq<char>) -> Option<PollPlanView> {
    if schedule.plans().contains_key(code) {
        Some(schedule.plans()[code])
    } else {
        None
    }
}

/// A pass plans its own job's next poll alone: at the base interval after one that moved it, backed off
/// after one that did not, when it is due where that is known, and never again once its budget is spent.
pub proof fn law_pass_plans_the_next_poll(
    schedule: &mut PollSchedule,
    code: &JobCode,
    outcome: JobPassOutcome,
    now: Duration,
    wall: Moment,
)
    requires
        call_ensures(
            PollSchedule::schedule_next_poll_at,
            (schedule, code, outcome, now, wall),
            (),
        ),
    ensures
        final(schedule).well_formed(),
        plans_alone(&*old(schedule), &*final(schedule), code@),
        is_next_plan(
            old(schedule).config(),
            plan_of(&*old(schedule), code@),
            final(schedule).plans()[code@],
            outcome,
            now@,
            wall@,
        ),
{
}

/// The same with the wall clock read at some moment.
pub proof fn law_pass_plans_the_next_poll_by_the_clock(
    schedule: &mut PollSchedule,
    code: &JobCode,
    outcome: JobPassOutcome,
    now: Duration,
)
    requires
        call_ensures(PollSchedule::schedule_next_poll, (schedule, code, outcome, now), ()),
    ensures
        final(schedule).well_formed(),
        plans_alone(&*old(schedule), &*final(schedule), code@),
        exists|wall: int|
            is_dated(wall) && #[trigger] is_next_plan(
                old(schedule).config(),
                plan_of(&*old(schedule), code@),
                final(schedule).plans()[code@],
                outcome,
                now@,
                wall,
            ),
{
    let wall = choose|wall: int| #[trigger]
        is_dated(wall) && final(schedule).plans() == old(schedule).plans().insert(
            code@,
            (if old(schedule).plans().contains_key(code@) {
                old(schedule).plans()[code@]
            } else {
                PollPlanView::first(old(schedule).config(), now@)
            }).after(old(schedule).config(), outcome, now@, wall),
        );
    assert(is_next_plan(
        old(schedule).config(),
        plan_of(&*old(schedule), code@),
        final(schedule).plans()[code@],
        outcome,
        now@,
        wall,
    ));
}

/// A job is polled where it has no plan, and else once its moment passed, unless its budget is spent.
/// A new schedule has no plan.
pub proof fn law_job_is_polled_after_its_moment(
    schedule: &PollSchedule,
    config: WorkerConfig,
    fresh: PollSchedule,
    code: &JobCode,
    now: Duration,
    poll: bool,
    next: Option<Duration>,
)
    ensures
        call_ensures(PollSchedule::should_poll_job, (schedule, code, now), poll) ==> (poll <==> (
        schedule.plans().contains_key(code@) ==> is_planned(schedule, code@)
            && schedule.plans()[code@].next_poll < now@)),
        call_ensures(PollSchedule::next_poll, (schedule, code), next) ==> {
            &&& next is Some <==> schedule.plans().contains_key(code@)
            &&& next matches Some(moment) ==> moment@ == schedule.plans()[code@].next_poll
        },
        call_ensures(PollSchedule::new, (config,), fresh) ==> {
            &&& fresh.well_formed()
            &&& fresh.config() == config@
            &&& forall|any: Seq<char>| !#[trigger] fresh.plans().contains_key(any)
        },
{
}

// Retrying

/// A call is repeated exactly where it asks for it and attempts are left, the attempts counted one by
/// one; otherwise it ends with what it came to.
pub proof fn law_call_is_repeated_while_attempts_last<T, E: RetryError>(
    retrier: &Retrier,
    attempts: usize,
    event: RetryEvent<T, E>,
    action: RetryAction<T, E>,
)
    requires
        call_ensures(Retrier::decide::<T, E>, (retrier, attempts, event), action),
        attempts < usize::MAX,
    ensures
        action is Wait <==> (event matches RetryEvent::Attempted(Ok(RetryStep::Retry(_))) && attempts
            + 1 < retrier@.max_attempts),
        action matches RetryAction::Wait(made) ==> made == attempts + 1,
        event matches RetryEvent::Attempted(Ok(RetryStep::Done(value))) ==> action == RetryAction::<
            T,
            E,
        >::Finish(Ok(value)),
        action matches RetryAction::Finish(Ok(value)) ==> event == RetryEvent::<T, E>::Attempted(
            Ok(RetryStep::Done(value)),
        ),
        event matches RetryEvent::Attempted(Err(error)) ==> action == RetryAction::<T, E>::Finish(
            Err(error),
        ),
        event is Cancelled ==> (action matches RetryAction::Finish(Err(e)) && call_ensures(
            E::from_cancellation,
            (),
            e,
        )),
        (event matches RetryEvent::Attempted(Ok(RetryStep::Retry(cause))) && attempts + 1
            >= retrier@.max_attempts) ==> (action matches RetryAction::Finish(Err(e))
            && call_ensures(
            E::from_spent_attempts,
            (event->Attempted_0->Ok_0->Retry_0,),
            e,
        )),
{
}

/// Whether `delay` is the one the policy names for this attempt: its own, the last one beyond them, and
/// a fifth of a second where none is named.
pub open spec fn is_named_delay(policy: RetrierConfigView, attempt: int, delay: int) -> bool {
    &&& 0 <= attempt < policy.delays.len() ==> delay == policy.delays[attempt]
    &&& attempt >= policy.delays.len() > 0 ==> delay == policy.delays[policy.delays.len() - 1]
    &&& policy.delays.len() == 0 ==> delay == 200 * a_millisecond()
}

/// An attempt waits its named delay, and whole milliseconds of jitter below the bound on top.
pub proof fn law_attempt_waits_its_named_delay(
    retrier: &Retrier,
    config: RetrierConfig,
    made: Retrier,
    attempt: usize,
    jitter: u64,
    delay: Duration,
)
    ensures
        call_ensures(Retrier::new, (config,), made) ==> made@ == config@,
        call_ensures(Retrier::delay_with_jitter, (retrier, attempt, jitter), delay)
            ==> is_named_delay(retrier@, attempt as int, delay@ - jitter * a_millisecond()),
        call_ensures(Retrier::calculate_delay, (retrier, attempt), delay) && retrier@.rand_delay >= 0
            ==> exists|jitter: int|
            0 <= jitter && (jitter == 0 || (jitter + 1) * a_millisecond() <= retrier@.rand_delay)
                && #[trigger] is_named_delay(
                retrier@,
                attempt as int,
                delay@ - jitter * a_millisecond(),
            ),
{
    if call_ensures(Retrier::calculate_delay, (retrier, attempt), delay) && retrier@.rand_delay
        >= 0 {
        let base = retrier@.base_delay(attempt as int);
        if retrier@.jitter_bound() == 0 {
            assert(is_named_delay(retrier@, attempt as int, delay@ - 0 * a_millisecond()));
        } else {
            let jitter = choose|jitter: int|
                0 <= jitter < retrier@.jitter_bound() && delay@ == #[trigger] (base + jitter
                    * NANOS_PER_MILLI);
            assert(is_named_delay(retrier@, attempt as int, delay@ - jitter * a_millisecond()));
            assert((jitter + 1) * a_millisecond() <= retrier@.rand_delay) by {
                assert(jitter + 1 <= retrier@.rand_delay / 1_000_000);
            }
        }
    }
}

// Cleaning up

/// Of a job, exactly the iterations that lie its whole retention behind the one that started may be
/// deleted; of one that is not registered, none.
pub proof fn law_retained_iterations_are_kept(
    registry: &JobRegistry,
    message: &JobIterationStarted,
    outdated: Vec<u64>,
)
    requires
        call_ensures(iterations_to_delete, (registry, message), outdated),
    ensures
        outdated@.len() <= 1,
        outdated@.len() == 1 <==> registry@.contains_key(message.job_code@)
            && message.iter_num > registry@[message.job_code@].iteration_retention,
        outdated@.len() == 1 ==> outdated@[0] + registry@[message.job_code@].iteration_retention
            == message.iter_num,
{
}

/// A sweep goes by the iteration a job is found in; a job that is not stored needs none, and other
/// trouble is passed on.
pub proof fn law_sweep_goes_by_the_current_iteration(
    registry: &JobRegistry,
    code: &JobCode,
    current: Result<u64, InternalError>,
    boundary: Result<Option<u64>, InternalError>,
)
    requires
        call_ensures(plan_sweep, (registry, code, current), boundary),
    ensures
        current matches Ok(iter_num) ==> {
            &&& boundary is Ok
            &&& boundary->Ok_0 is Some <==> registry@.contains_key(code@) && iter_num
                > registry@[code@].iteration_retention
            &&& boundary->Ok_0 matches Some(last) ==> last + registry@[code@].iteration_retention
                == iter_num
        },
        current matches Err(error) ==> {
            let absent = error is Storage && error->Storage_0@.kind == StorageErrorKind::NotFound;
            &&& absent ==> boundary == Ok::<Option<u64>, InternalError>(None)
            &&& !absent ==> boundary == Err::<Option<u64>, InternalError>(error)
        },
{
}

/// A storage call is repeated exactly where the service was not available, and only a cancellation stops
/// the cleanup.
pub proof fn law_only_an_unavailable_service_is_asked_again<T>(
    called: Result<T, StorageError>,
    step: Result<RetryStep<T, InternalError>, InternalError>,
    cleaned: &Result<T, InternalError>,
    stops: bool,
)
    ensures
        call_ensures(retry_step::<T>, (called,), step) ==> {
            &&& called matches Ok(value) ==> step == Ok::<RetryStep<T, InternalError>, InternalError>(
                RetryStep::Done(value),
            )
            &&& (step matches Ok(RetryStep::Retry(_))) <==> called is Err && called->Err_0@.kind
                == StorageErrorKind::ServiceUnavailable
            &&& step matches Ok(RetryStep::Retry(e)) ==> e@ == InternalErrorView::Storage(
                called->Err_0@,
            )
            &&& step matches Err(e) ==> called is Err && e@ == if called->Err_0@.kind
                == StorageErrorKind::Cancelled {
                InternalErrorView::Cancelled
            } else {
                InternalErrorView::Storage(called->Err_0@)
            }
        },
        call_ensures(stops_cleanup::<T>, (cleaned,), stops) ==> (stops <==> *cleaned is Err
            && (*cleaned)->Err_0@ == InternalErrorView::Cancelled),
{
}

// Waiting for iterations

/// The iteration a record names never goes back, and the record names every later one it was told of.
pub proof fn law_record_only_moves_on(recorded: &mut Option<u64>, iter_num: u64, advanced: bool)
    requires
        call_ensures(advance_finished_iteration, (recorded, iter_num), advanced),
    ensures
        *final(recorded) is Some,
        final(recorded)->Some_0 >= iter_num,
        *old(recorded) is Some ==> final(recorded)->Some_0 >= old(recorded)->Some_0,
        final(recorded)->Some_0 == iter_num || *final(recorded) == *old(recorded),
        advanced <==> *final(recorded) != *old(recorded),
{
}

/// A report moves on the record of its own job alone, and only of a job the pool runs; it is news exactly
/// where it does.
pub proof fn law_reports_are_recorded_by_job(
    records: &mut FinishedIterations,
    code: &JobCode,
    iter_num: u64,
    news: bool,
)
    requires
        call_ensures(
            FinishedIterations::record_finished_iteration,
            (records, code, iter_num),
            news,
        ),
    ensures
        ({
            let before = old(records)@;
            let after = final(records)@;
            let newer = before.contains_key(code@) && (before[code@] matches Some(last) ==> last
                < iter_num);
            &&& news <==> newer
            &&& forall|any: Seq<char>| #[trigger]
                after.contains_key(any) <==> before.contains_key(any)
            &&& forall|any: Seq<char>| #[trigger]
                after.contains_key(any) ==> after[any] == if any == code@ && newer {
                    Some(iter_num)
                } else {
                    before[any]
                }
        }),
{
}

/// A record is read back as it stands, for the jobs the pool runs.
pub proof fn law_record_is_read_back(
    records: &FinishedIterations,
    code: &JobCode,
    last: Result<Option<u64>, Error>,
)
    ensures
        call_ensures(FinishedIterations::last_finished, (records, code), last) ==> {
            &&& last is Ok <==> records@.contains_key(code@)
            &&& last matches Ok(recorded) ==> recorded == records@[code@]
        },
{
}

/// The record starts out empty for exactly the jobs the pool runs.
pub proof fn law_record_starts_out_empty(codes: Vec<JobCode>, fresh: FinishedIterations, i: int)
    requires
        call_ensures(FinishedIterations::new, (codes,), fresh),
    ensures
        0 <= i < codes@.len() ==> fresh@.contains_key(codes@[i]@) && fresh@[codes@[i]@] is None,
        forall|any: Seq<char>| #[trigger]
            fresh@.contains_key(any) ==> fresh@[any] is None && exists|k: int|
                0 <= k < codes@.len() && (#[trigger] codes@[k])@ == any,
{
}

/// Waiting is over once an iteration finished that is no earlier than the awaited one, or any where none
/// is named, and it names the one that finished.
pub proof fn law_waiting_ends_with_the_awaited_iteration(
    last_finished: Option<u64>,
    awaited: Option<u64>,
    reached: Option<u64>,
)
    requires
        call_ensures(awaited_iteration, (last_finished, awaited), reached),
    ensures
        reached is Some <==> last_finished is Some && (awaited matches Some(number) ==> number
            <= last_finished->Some_0),
        reached is Some ==> reached == last_finished,
{
}

/// A pool needs a worker, its workers start one after another, and the cleaner can lag five reports for
/// each worker and job.
pub proof fn law_pool_is_laid_out(
    config: &JobsManagerConfig,
    valid: Result<(), Error>,
    worker: usize,
    stagger: u64,
    delay: Duration,
    later: Duration,
    jobs: usize,
    reports: usize,
)
    ensures
        call_ensures(JobsManagerConfig::validate, (config,), valid) ==> (valid is Ok
            <==> config.worker_count != 0),
        call_ensures(worker_start_delay, (0, stagger), delay) ==> delay@ == 0,
        worker < usize::MAX && call_ensures(worker_start_delay, (worker, stagger), delay)
            && call_ensures(worker_start_delay, ((worker + 1) as usize, stagger), later) && (worker
            + 1) * stagger <= u64::MAX ==> later@ == delay@ + stagger * a_millisecond(),
        call_ensures(JobsManagerConfig::cleaner_backlog, (config, jobs), reports) ==> reports == 5
            * (config.worker_count * jobs),
{
    assert((worker + 1) * stagger == worker * stagger + stagger) by (nonlinear_arith);
    assert(worker * stagger >= 0) by (nonlinear_arith);
    assert(0 * stagger == 0);
}

} // verus!
