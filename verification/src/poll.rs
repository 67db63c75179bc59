//! When a worker polls which job.

use vstd::prelude::*;

use crate::chance::draw_below;
use crate::code::JobCode;
use crate::code_map::CodeMap;
use crate::error::{Error, ErrorView};
use crate::retrier::{default_policy, RetrierConfig, RetrierConfigView};
use crate::time::{length, longest_duration, Duration, Moment};

verus! {

/// How many times above the base interval the backoff ceiling sits when no ceiling was named.
pub const DEFAULT_MAX_POLL_INTERVAL_FACTOR: u32 = 10;

/// Base interval a worker polls at unless another one is named, in milliseconds.
pub const DEFAULT_POLL_INTERVAL_MILLIS: u64 = 200;

/// Bound of the random delay added to each poll unless another one is named, in milliseconds.
pub const DEFAULT_POLL_JITTER_MILLIS: u64 = 50;

/// Longest interval a worker accepts, either as its base or as its backoff ceiling: a year, in
/// seconds.
pub const LONGEST_ACCEPTED_POLL_INTERVAL_SECS: u64 = 31_536_000;

/// Longest interval a worker accepts, in nanoseconds.
pub open spec fn longest_poll_interval() -> int {
    LONGEST_ACCEPTED_POLL_INTERVAL_SECS * 1_000_000_000
}

/// Polling and retry behavior applied to every worker of a pool.
///
/// Every setting is checked as it is set, so an assembled `WorkerConfig` is always a set of intervals
/// a worker can poll by: there is no separate validation step and no state in between.
#[derive(Debug)]
pub struct WorkerConfig {
    poll_interval: Duration,
    poll_jitter: Duration,
    max_poll_interval: Option<Duration>,
    retrier_config: RetrierConfig,
}

/// A [`WorkerConfig`] as contracts speak of it. Spans are in nanoseconds.
pub struct WorkerConfigView {
    /// Base interval.
    pub poll_interval: int,
    /// Bound of the random delay added to each poll.
    pub poll_jitter: int,
    /// Backoff ceiling, where one was named.
    pub max_poll_interval: Option<int>,
    /// Retry policy.
    pub retrier_config: RetrierConfigView,
}

impl WorkerConfigView {
    /// Whether a worker can poll by these intervals: the base is positive, the ceiling is not below
    /// it, and neither exceeds a year.
    pub open spec fn is_pollable(self) -> bool {
        &&& 0 < self.poll_interval <= longest_poll_interval()
        &&& self.max_poll_interval matches Some(ceiling) ==> self.poll_interval <= ceiling
            <= longest_poll_interval()
    }

    /// The ceiling the poll interval backs off to: the one named, or a multiple of the base interval.
    pub open spec fn ceiling(self) -> int {
        match self.max_poll_interval {
            Some(ceiling) => ceiling,
            None => self.poll_interval * DEFAULT_MAX_POLL_INTERVAL_FACTOR,
        }
    }

    /// Nanoseconds the jitter is drawn below.
    pub open spec fn jitter_bound(self) -> int {
        if self.poll_jitter <= u64::MAX {
            self.poll_jitter
        } else {
            u64::MAX as int
        }
    }

    /// The interval after an idle pass: twice the last, capped at the ceiling.
    pub open spec fn backed_off(self, last: int) -> int {
        if last * 2 < self.ceiling() {
            last * 2
        } else {
            self.ceiling()
        }
    }

    /// Why an interval cannot become the base, or `None` where it can.
    pub open spec fn interval_refusal(self, interval: int) -> Option<Seq<char>> {
        if interval == 0 {
            Some("poll interval must be positive"@)
        } else if interval > longest_poll_interval() {
            Some("poll interval must not exceed a year"@)
        } else if self.max_poll_interval is Some && self.max_poll_interval->Some_0 < interval {
            Some("max poll interval must not be below the poll interval"@)
        } else {
            None
        }
    }

    /// Why a span cannot become the ceiling, or `None` where it can.
    pub open spec fn ceiling_refusal(self, ceiling: int) -> Option<Seq<char>> {
        if ceiling < self.poll_interval {
            Some("max poll interval must not be below the poll interval"@)
        } else if ceiling > longest_poll_interval() {
            Some("max poll interval must not exceed a year"@)
        } else {
            None
        }
    }
}

/// The settings a worker polls by unless others are named.
pub open spec fn default_settings() -> WorkerConfigView {
    WorkerConfigView {
        poll_interval: DEFAULT_POLL_INTERVAL_MILLIS * 1_000_000,
        poll_jitter: DEFAULT_POLL_JITTER_MILLIS * 1_000_000,
        max_poll_interval: None,
        retrier_config: default_policy(),
    }
}

impl View for WorkerConfig {
    type V = WorkerConfigView;

    closed spec fn view(&self) -> WorkerConfigView {
        WorkerConfigView {
            poll_interval: self.poll_interval@,
            poll_jitter: self.poll_jitter@,
            max_poll_interval: length(self.max_poll_interval),
            retrier_config: self.retrier_config@,
        }
    }
}

impl Clone for WorkerConfig {
    fn clone(&self) -> (copy: Self)
        ensures
            copy@ == self@,
    {
        proof {
            use_type_invariant(self);
        }
        WorkerConfig {
            poll_interval: self.poll_interval,
            poll_jitter: self.poll_jitter,
            max_poll_interval: self.max_poll_interval,
            retrier_config: self.retrier_config.clone(),
        }
    }
}

impl Default for WorkerConfig {
    fn default() -> (config: Self)
        ensures
            config@ == default_settings(),
    {
        WorkerConfig::new()
    }
}

impl WorkerConfig {
    #[verifier::type_invariant]
    closed spec fn is_pollable(self) -> bool {
        self@.is_pollable()
    }

    /// Settings a worker polls by unless a `with_*` method replaces one of them.
    pub fn new() -> (config: Self)
        ensures
            config@ == default_settings(),
    {
        WorkerConfig {
            poll_interval: Duration::from_millis(DEFAULT_POLL_INTERVAL_MILLIS),
            poll_jitter: Duration::from_millis(DEFAULT_POLL_JITTER_MILLIS),
            max_poll_interval: None,
            retrier_config: RetrierConfig::default(),
        }
    }

    /// Replaces the base interval a worker polls storage at after a pass that found work.
    ///
    /// # Errors
    ///
    /// Returns [`Error::Other`] if `interval` is zero - a worker would then poll storage in a loop
    /// without ever pausing - if it is above a year, or if it is above a ceiling already named through
    /// [`Self::with_max_poll_interval`], which would turn the backoff into a speed-up.
    pub fn with_poll_interval(self, interval: Duration) -> (set: Result<Self, Error>)
        ensures
            match self@.interval_refusal(interval@) {
                None => set matches Ok(config) && config@ == (WorkerConfigView {
                    poll_interval: interval@,
                    ..self@
                }),
                Some(message) => set matches Err(e) && e@ == ErrorView::Other(message),
            },
    {
        proof {
            use_type_invariant(&self);
        }
        if interval.is_zero() {
            return Err(Error::Other("poll interval must be positive".to_owned()));
        }
        let longest = Duration::from_secs(LONGEST_ACCEPTED_POLL_INTERVAL_SECS);
        if longest.is_below(&interval) {
            return Err(Error::Other("poll interval must not exceed a year".to_owned()));
        }
        if let Some(ceiling) = self.max_poll_interval {
            if ceiling.is_below(&interval) {
                return Err(
                    Error::Other(
                        "max poll interval must not be below the poll interval".to_owned(),
                    ),
                );
            }
        }
        Ok(
            WorkerConfig {
                poll_interval: interval,
                poll_jitter: self.poll_jitter,
                max_poll_interval: self.max_poll_interval,
                retrier_config: self.retrier_config,
            },
        )
    }

    /// Replaces the upper bound of the random delay added to each poll, which keeps workers from
    /// polling in lockstep. A zero bound adds nothing.
    #[must_use]
    pub fn with_poll_jitter(self, jitter: Duration) -> (config: Self)
        ensures
            config@ == (WorkerConfigView { poll_jitter: jitter@, ..self@ }),
    {
        proof {
            use_type_invariant(&self);
        }
        WorkerConfig {
            poll_interval: self.poll_interval,
            poll_jitter: jitter,
            max_poll_interval: self.max_poll_interval,
            retrier_config: self.retrier_config,
        }
    }

    /// Replaces the ceiling the poll interval backs off to while there is no work.
    ///
    /// # Errors
    ///
    /// Returns [`Error::Other`] if `ceiling` is below the poll interval, which would turn the backoff
    /// into a speed-up, or above a year.
    pub fn with_max_poll_interval(self, ceiling: Duration) -> (set: Result<Self, Error>)
        ensures
            match self@.ceiling_refusal(ceiling@) {
                None => set matches Ok(config) && config@ == (WorkerConfigView {
                    max_poll_interval: Some(ceiling@),
                    ..self@
                }),
                Some(message) => set matches Err(e) && e@ == ErrorView::Other(message),
            },
    {
        proof {
            use_type_invariant(&self);
        }
        if ceiling.is_below(&self.poll_interval) {
            return Err(
                Error::Other("max poll interval must not be below the poll interval".to_owned()),
            );
        }
        let longest = Duration::from_secs(LONGEST_ACCEPTED_POLL_INTERVAL_SECS);
        if longest.is_below(&ceiling) {
            return Err(Error::Other("max poll interval must not exceed a year".to_owned()));
        }
        Ok(
            WorkerConfig {
                poll_interval: self.poll_interval,
                poll_jitter: self.poll_jitter,
                max_poll_interval: Some(ceiling),
                retrier_config: self.retrier_config,
            },
        )
    }

    /// Replaces the retry policy a worker applies to its storage operations.
    #[must_use]
    pub fn with_retrier(self, config: RetrierConfig) -> (replaced: Self)
        ensures
            replaced@ == (WorkerConfigView { retrier_config: config@, ..self@ }),
    {
        proof {
            use_type_invariant(&self);
        }
        WorkerConfig {
            poll_interval: self.poll_interval,
            poll_jitter: self.poll_jitter,
            max_poll_interval: self.max_poll_interval,
            retrier_config: config,
        }
    }

    /// Base interval a worker polls storage at after a pass that found work.
    ///
    /// Applies per job: a job with nothing to wait for is polled at this interval, while one whose
    /// next iteration is not due yet is not polled until it is.
    pub fn poll_interval(&self) -> (interval: Duration)
        ensures
            interval@ == self@.poll_interval,
            0 < interval@ <= longest_poll_interval(),
    {
        proof {
            use_type_invariant(self);
        }
        self.poll_interval
    }

    /// Upper bound of the random delay added to each poll.
    ///
    /// Also spreads the moment jobs sharing a schedule are picked up: without it every worker of
    /// every pool wakes at the same instant when an interval-scheduled job becomes due.
    pub fn poll_jitter(&self) -> (jitter: Duration)
        ensures
            jitter@ == self@.poll_jitter,
    {
        self.poll_jitter
    }

    /// Ceiling the poll interval backs off to while there is no work.
    ///
    /// A ceiling nobody named is [`DEFAULT_MAX_POLL_INTERVAL_FACTOR`] times the poll interval, so the
    /// backoff spans the same number of doublings whatever the base interval is; a ceiling named
    /// through [`Self::with_max_poll_interval`] replaces it outright.
    pub fn max_poll_interval(&self) -> (ceiling: Duration)
        ensures
            ceiling@ == self@.ceiling(),
            self@.poll_interval <= ceiling@ <= longest_poll_interval()
                * DEFAULT_MAX_POLL_INTERVAL_FACTOR,
    {
        proof {
            use_type_invariant(self);
        }
        match self.max_poll_interval {
            Some(ceiling) => ceiling,
            None => match self.poll_interval.checked_mul(DEFAULT_MAX_POLL_INTERVAL_FACTOR) {
                Some(ceiling) => ceiling,
                None => self.poll_interval,
            },
        }
    }

    /// Retry policy a worker applies to its storage operations.
    pub fn retrier_config(&self) -> (config: &RetrierConfig)
        ensures
            config@ == self@.retrier_config,
    {
        &self.retrier_config
    }

    /// Interval for the pass after an idle one: twice the last, capped at the configured maximum.
    pub fn calculate_backed_off_poll_interval(&self, last_poll_interval: Duration) -> (interval:
        Duration)
        requires
            last_poll_interval@ * 2 <= longest_duration(),
        ensures
            interval@ == self@.backed_off(last_poll_interval@),
    {
        let ceiling = self.max_poll_interval();
        match last_poll_interval.checked_mul(2) {
            Some(doubled) => ceiling.shorter(doubled),
            None => ceiling,
        }
    }

    /// Nanoseconds the jitter is drawn below.
    fn jitter_bound(&self) -> (bound: u64)
        ensures
            bound == self@.jitter_bound(),
    {
        let nanos: u128 = self.poll_jitter.as_nanos();
        if nanos <= u64::MAX as u128 {
            nanos as u64
        } else {
            u64::MAX
        }
    }

    /// The wait `poll_interval` comes to with `jitter` nanoseconds of jitter.
    pub fn wait_with_jitter(&self, poll_interval: Duration, jitter: u64) -> (wait: Duration)
        requires
            poll_interval@ + jitter <= longest_duration(),
        ensures
            wait@ == poll_interval@ + jitter,
    {
        moved(poll_interval, Duration::from_nanos(jitter))
    }

    /// Spreads `poll_interval` over a random share of the configured jitter, which is what keeps
    /// workers from polling in lockstep. A zero jitter draws nothing, so the wait is the interval
    /// itself.
    pub fn calculate_jittered_wait(&self, poll_interval: Duration) -> (wait: Duration)
        requires
            poll_interval@ + self@.jitter_bound() <= longest_duration(),
        ensures
            self@.jitter_bound() >= 0,
            self@.jitter_bound() == 0 ==> wait@ == poll_interval@,
            self@.jitter_bound() > 0 ==> poll_interval@ <= wait@ < poll_interval@
                + self@.jitter_bound(),
    {
        let bound: u64 = self.jitter_bound();
        let jitter: u64 = if bound == 0 {
            0
        } else {
            draw_below(bound)
        };
        self.wait_with_jitter(poll_interval, jitter)
    }
}

/// How one pass over a job ended, which is what decides when polling it again can change anything.
#[derive(Clone, Copy, Debug, PartialEq, Eq)]
pub enum JobPassOutcome {
    /// The job spent its iteration budget: no later pass can change anything.
    IterationBudgetSpent,
    /// The iteration finished; the next one is not due before the given moment.
    NextIterationDueAt(Moment),
    /// The pass moved the job.
    Processed,
    /// The pass changed nothing, or failed.
    Stalled,
}

/// Time left from `now` until `moment`, or zero if it has already passed, and never more than a year.
///
/// The cap holds the scheduler's arithmetic inside the range configured intervals are checked
/// against. A job polled a year before it is due pays one pass, which schedules it again.
pub open spec fn time_until(moment: int, now: int) -> int {
    if moment < now {
        0
    } else if moment - now < longest_poll_interval() {
        moment - now
    } else {
        longest_poll_interval()
    }
}

/// Time left from `now` until `moment`; see [`time_until`].
pub fn calculate_duration_until_at(moment: Moment, now: Moment) -> (span: Duration)
    ensures
        span@ == time_until(moment@, now@),
{
    let left = moment.saturating_duration_since(&now);
    let longest = Duration::from_secs(LONGEST_ACCEPTED_POLL_INTERVAL_SECS);
    longest.shorter(left)
}

/// Time left until `moment`, or zero if it has already passed, and never more than a year.
pub fn calculate_duration_until(moment: Moment) -> (span: Duration)
    ensures
        exists|now: int| #[trigger] crate::time::is_dated(now) && span@ == time_until(moment@, now),
{
    let now = Moment::now();
    calculate_duration_until_at(moment, now)
}

/// When a job is polled next. Moments are spans since the worker started its clock.
#[derive(Clone, Copy, Debug, PartialEq, Eq)]
pub struct PollPlan {
    next_poll: Duration,
    // Backoff step of this job alone: a busy job must not hold an idle neighbour at the base
    // interval, nor an idle one drag a busy neighbour up to the ceiling.
    poll_interval: Duration,
    exhausted: bool,
}

/// A [`PollPlan`] as contracts speak of it. Spans are in nanoseconds.
pub struct PollPlanView {
    /// Moment the job may be polled after.
    pub next_poll: int,
    /// Backoff step of the job.
    pub poll_interval: int,
    /// Whether the job spent its iteration budget.
    pub exhausted: bool,
}

impl View for PollPlan {
    type V = PollPlanView;

    closed spec fn view(&self) -> PollPlanView {
        PollPlanView {
            next_poll: self.next_poll@,
            poll_interval: self.poll_interval@,
            exhausted: self.exhausted,
        }
    }
}

impl PollPlanView {
    /// The plan of a job that was never polled before `now`.
    pub open spec fn first(config: WorkerConfigView, now: int) -> PollPlanView {
        PollPlanView { next_poll: now, poll_interval: config.poll_interval, exhausted: false }
    }

    /// Whether polling the job at `now` can change anything.
    pub open spec fn is_due(self, now: int) -> bool {
        !self.exhausted && now > self.next_poll
    }

    /// The plan once a pass ended at `now`, which is the moment `wall` on the wall clock.
    pub open spec fn after(
        self,
        config: WorkerConfigView,
        outcome: JobPassOutcome,
        now: int,
        wall: int,
    ) -> PollPlanView {
        match outcome {
            JobPassOutcome::IterationBudgetSpent => PollPlanView { exhausted: true, ..self },
            JobPassOutcome::Processed => PollPlanView {
                poll_interval: config.poll_interval,
                next_poll: now + config.poll_interval,
                ..self
            },
            JobPassOutcome::Stalled => PollPlanView {
                poll_interval: config.backed_off(self.poll_interval),
                next_poll: now + config.backed_off(self.poll_interval),
                ..self
            },
            JobPassOutcome::NextIterationDueAt(due) => PollPlanView {
                poll_interval: config.poll_interval,
                next_poll: now + time_until(due@, wall),
                ..self
            },
        }
    }
}

/// When each job of a worker is polled next.
#[derive(Debug)]
pub struct PollSchedule {
    config: WorkerConfig,
    plans: CodeMap<JobCode, PollPlan>,
}

/// The plans as contracts speak of them.
pub open spec fn plan_views(plans: Map<Seq<char>, PollPlan>) -> Map<Seq<char>, PollPlanView> {
    plans.map_values(|plan: PollPlan| plan@)
}

/// Room the clock of a schedule needs above its reading: the longest wait any plan adds to it.
pub open spec fn longest_wait() -> int {
    longest_poll_interval() * DEFAULT_MAX_POLL_INTERVAL_FACTOR
}

/// The wait until the nearest of the plans that are not exhausted falls due, or `None` where every
/// plan is exhausted.
pub open spec fn nearest_wait(
    codes: Seq<Seq<char>>,
    plans: Map<Seq<char>, PollPlanView>,
    now: int,
) -> Option<int>
    decreases codes.len(),
{
    if codes.len() == 0 {
        None
    } else {
        let rest = nearest_wait(codes.drop_last(), plans, now);
        let plan = plans[codes.last()];
        if plan.exhausted {
            rest
        } else {
            let wait = if plan.next_poll < now {
                0
            } else {
                plan.next_poll - now
            };
            match rest {
                Some(nearest) if nearest <= wait => Some(nearest),
                _ => Some(wait),
            }
        }
    }
}

impl PollSchedule {
    /// The plans by job code.
    pub closed spec fn plans(&self) -> Map<Seq<char>, PollPlanView> {
        plan_views(self.plans@)
    }

    /// The codes of the jobs that have a plan.
    pub closed spec fn codes(&self) -> Seq<Seq<char>> {
        self.plans.codes()
    }

    /// The settings the schedule goes by.
    pub closed spec fn config(&self) -> WorkerConfigView {
        self.config@
    }

    /// Whether every job has one plan, with a step the backoff can double.
    pub closed spec fn well_formed(&self) -> bool {
        &&& self.plans.well_formed()
        &&& forall|code: Seq<char>| #[trigger]
            self.plans@.contains_key(code) ==> 0 <= self.plans@[code]@.poll_interval
                <= longest_wait()
    }

    /// The wait at `now` before the next pass over `job_count` jobs, jitter aside: the base interval
    /// while some job has no plan, else the time until the nearest plan falls due, else - every job
    /// having spent its budget - the ceiling.
    pub open spec fn base_wait(&self, job_count: int, now: int) -> int {
        if self.codes().len() < job_count {
            self.config().poll_interval
        } else {
            match nearest_wait(self.codes(), self.plans(), now) {
                Some(nearest) => nearest,
                None => self.config().ceiling(),
            }
        }
    }

    /// The codes name the jobs that have a plan, each once.
    pub proof fn law_codes_name_the_plans(&self)
        requires
            self.well_formed(),
        ensures
            forall|code: Seq<char>| #[trigger]
                self.plans().contains_key(code) <==> self.codes().contains(code),
            self.codes().no_duplicates(),
            self.codes().len() == self.plans().dom().len(),
    {
        self.plans.law_codes_are_filed();
        assert forall|code: Seq<char>| #[trigger]
            self.plans().contains_key(code) <==> self.codes().contains(code) by {
            assert(self.plans().contains_key(code) == self.plans@.contains_key(code));
        }
        self.codes().unique_seq_to_set();
        assert(self.codes().to_set() =~= self.plans().dom());
    }

    /// A schedule in which no job was polled yet.
    pub fn new(config: WorkerConfig) -> (schedule: Self)
        ensures
            schedule.well_formed(),
            schedule.config() == config@,
            schedule.plans() == Map::<Seq<char>, PollPlanView>::empty(),
            schedule.codes() == Seq::<Seq<char>>::empty(),
    {
        let schedule = PollSchedule { config, plans: CodeMap::new() };
        assert(schedule.plans() =~= Map::empty());
        schedule
    }

    /// Whether polling the job at `now` can change anything. A job that was never polled is polled.
    pub fn should_poll_job(&self, job_code: &JobCode, now: Duration) -> (poll: bool)
        requires
            self.well_formed(),
        ensures
            poll == if self.plans().contains_key(job_code@) {
                self.plans()[job_code@].is_due(now@)
            } else {
                true
            },
    {
        match self.plans.get(job_code) {
            Some(plan) => {
                if plan.exhausted {
                    return false;
                }
                plan.next_poll.is_below(&now)
            },
            None => true,
        }
    }

    /// The moment after which the job is polled next, or `None` while it has no plan.
    pub fn next_poll(&self, job_code: &JobCode) -> (moment: Option<Duration>)
        requires
            self.well_formed(),
        ensures
            length(moment) == if self.plans().contains_key(job_code@) {
                Some(self.plans()[job_code@].next_poll)
            } else {
                None
            },
    {
        match self.plans.get(job_code) {
            Some(plan) => Some(plan.next_poll),
            None => None,
        }
    }

    /// Records when polling the job can change anything again, given how its last pass ended at
    /// `now`, which is the moment `wall` on the wall clock.
    pub fn schedule_next_poll_at(
        &mut self,
        job_code: &JobCode,
        pass_outcome: JobPassOutcome,
        now: Duration,
        wall: Moment,
    )
        requires
            old(self).well_formed(),
            now@ + longest_wait() <= longest_duration(),
        ensures
            final(self).well_formed(),
            final(self).config() == old(self).config(),
            final(self).plans() == old(self).plans().insert(
                job_code@,
                (if old(self).plans().contains_key(job_code@) {
                    old(self).plans()[job_code@]
                } else {
                    PollPlanView::first(old(self).config(), now@)
                }).after(old(self).config(), pass_outcome, now@, wall@),
            ),
            final(self).codes() == if old(self).plans().contains_key(job_code@) {
                old(self).codes()
            } else {
                old(self).codes().push(job_code@)
            },
    {
        let base_interval = self.config.poll_interval();
        let ghost before = self.plans@;
        let mut plan = match self.plans.get(job_code) {
            Some(plan) => *plan,
            None => PollPlan { next_poll: now, poll_interval: base_interval, exhausted: false },
        };
        match pass_outcome {
            JobPassOutcome::IterationBudgetSpent => {
                plan.exhausted = true;
            },
            JobPassOutcome::Processed => {
                plan.poll_interval = base_interval;
                plan.next_poll = moved(now, base_interval);
            },
            JobPassOutcome::Stalled => {
                proof {
                    use_type_invariant(&self.config);
                }
                plan.poll_interval =
                self.config.calculate_backed_off_poll_interval(plan.poll_interval);
                plan.next_poll = moved(now, plan.poll_interval);
            },
            JobPassOutcome::NextIterationDueAt(due) => {
                plan.poll_interval = base_interval;
                plan.next_poll = moved(now, calculate_duration_until_at(due, wall));
            },
        }
        self.plans.insert(job_code.clone(), plan);
        assert(self.plans() =~= plan_views(before).insert(job_code@, plan@));
    }

    /// Records when polling the job can change anything again, the wall clock being read now; see
    /// [`Self::schedule_next_poll_at`].
    pub fn schedule_next_poll(
        &mut self,
        job_code: &JobCode,
        pass_outcome: JobPassOutcome,
        now: Duration,
    )
        requires
            old(self).well_formed(),
            now@ + longest_wait() <= longest_duration(),
        ensures
            final(self).well_formed(),
            final(self).config() == old(self).config(),
            exists|wall: int| #[trigger]
                crate::time::is_dated(wall) && final(self).plans() == old(self).plans().insert(
                    job_code@,
                    (if old(self).plans().contains_key(job_code@) {
                        old(self).plans()[job_code@]
                    } else {
                        PollPlanView::first(old(self).config(), now@)
                    }).after(old(self).config(), pass_outcome, now@, wall),
                ),
            final(self).codes() == if old(self).plans().contains_key(job_code@) {
                old(self).codes()
            } else {
                old(self).codes().push(job_code@)
            },
    {
        let wall = Moment::now();
        self.schedule_next_poll_at(job_code, pass_outcome, now, wall)
    }

    /// How long to wait at `now` before the next pass, jitter aside: until the nearest job is due for
    /// a poll.
    ///
    /// A job the worker has not polled yet has no plan, so the base interval stands in for it. A
    /// worker whose jobs have all spent their iteration budget polls nothing at all and waits the
    /// ceiling rather than waking on the base interval to do nothing.
    pub fn calculate_poll_interval(&self, job_count: usize, now: Duration) -> (wait: Duration)
        requires
            self.well_formed(),
        ensures
            wait@ == self.base_wait(job_count as int, now@),
    {
        if self.plans.len() < job_count {
            return self.config.poll_interval();
        }
        let mut nearest: Option<Duration> = None;
        let mut i: usize = 0;
        assert(self.codes().take(0) =~= Seq::empty());
        while i < self.plans.len()
            invariant
                i <= self.codes().len(),
                self.codes() == self.plans.codes(),
                self.well_formed(),
                length(nearest) == nearest_wait(self.codes().take(i as int), self.plans(), now@),
            decreases self.codes().len() - i,
        {
            let plan = self.plans.value_at(i);
            proof {
                assert(self.codes().take(i + 1).drop_last() =~= self.codes().take(i as int));
                assert(self.codes().take(i + 1).last() == self.codes()[i as int]);
                assert(self.plans()[self.codes()[i as int]] == plan@);
            }
            if !plan.exhausted {
                let wait = plan.next_poll.saturating_sub(&now);
                nearest = match nearest {
                    Some(known) => {
                        if wait.is_below(&known) {
                            Some(wait)
                        } else {
                            Some(known)
                        }
                    },
                    None => Some(wait),
                };
            }
            i = i + 1;
        }
        assert(self.codes().take(i as int) =~= self.codes());
        match nearest {
            Some(nearest) => nearest,
            None => self.config.max_poll_interval(),
        }
    }

    /// How long to wait at `now` before the next pass: until the nearest job is due for a poll, plus
    /// jitter.
    pub fn calculate_wait_duration(&self, job_count: usize, now: Duration) -> (wait: Duration)
        requires
            self.well_formed(),
            self.base_wait(job_count as int, now@) + self.config().jitter_bound() <= longest_duration(),
        ensures
            self.config().jitter_bound() == 0 ==> wait@ == self.base_wait(job_count as int, now@),
            self.config().jitter_bound() > 0 ==> self.base_wait(job_count as int, now@) <= wait@
                < self.base_wait(job_count as int, now@) + self.config().jitter_bound(),
            self.config().jitter_bound() >= 0,
    {
        let interval = self.calculate_poll_interval(job_count, now);
        self.config.calculate_jittered_wait(interval)
    }
}

/// The moment `span` after `now`, which has to be one the clock can name.
fn moved(now: Duration, span: Duration) -> (moment: Duration)
    requires
        now@ + span@ <= longest_duration(),
    ensures
        moment@ == now@ + span@,
{
    match now.checked_add(&span) {
        Some(moment) => moment,
        None => now,
    }
}

} // verus!
