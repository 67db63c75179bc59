//! Retry policy: how many attempts to make, and how long to wait before each of them.

use vstd::prelude::*;

use crate::chance::draw_below;
use crate::time::{longest_duration, Duration};

verus! {

/// Retry policy applied to a single fallible operation: how many attempts to make, how long to back
/// off before each retry, and how much random jitter to add to spread out retries across workers.
#[derive(Debug)]
pub struct RetrierConfig {
    /// Maximum number of retry attempts.
    pub max_attempts: usize,
    /// Random jitter added to each delay.
    pub rand_delay: Duration,
    /// Backoff delays by attempt index.
    pub delays: Vec<Duration>,
}

/// A [`RetrierConfig`] as contracts speak of it. Spans are in nanoseconds.
pub struct RetrierConfigView {
    /// Maximum number of retry attempts.
    pub max_attempts: int,
    /// Random jitter added to each delay.
    pub rand_delay: int,
    /// Backoff delays by attempt index.
    pub delays: Seq<int>,
}

impl View for RetrierConfig {
    type V = RetrierConfigView;

    open spec fn view(&self) -> RetrierConfigView {
        RetrierConfigView {
            max_attempts: self.max_attempts as int,
            rand_delay: self.rand_delay@,
            delays: self.delays@.map_values(|delay: Duration| delay@),
        }
    }
}

/// Nanoseconds in a millisecond.
pub const NANOS_PER_MILLI: u64 = 1_000_000;

/// The wait of an attempt no delay is named for, in milliseconds.
pub const FALLBACK_DELAY_MILLIS: u64 = 200;

impl RetrierConfigView {
    /// The delay before an attempt, jitter aside: the one named for it, or the last one there is.
    pub open spec fn base_delay(self, attempt: int) -> int {
        if attempt < self.delays.len() {
            self.delays[attempt]
        } else if self.delays.len() > 0 {
            self.delays.last()
        } else {
            FALLBACK_DELAY_MILLIS * NANOS_PER_MILLI
        }
    }

    /// The number of milliseconds jitter is drawn below.
    pub open spec fn jitter_bound(self) -> int {
        if self.rand_delay / 1_000_000 <= u64::MAX {
            self.rand_delay / 1_000_000
        } else {
            u64::MAX as int
        }
    }

    /// Whether the delay before an attempt is a span there is, whatever jitter is drawn.
    pub open spec fn has_delay(self, attempt: int) -> bool {
        self.base_delay(attempt) + self.jitter_bound() * NANOS_PER_MILLI <= longest_duration()
    }
}

impl Clone for RetrierConfig {
    fn clone(&self) -> (copy: Self)
        ensures
            copy@ == self@,
    {
        let delays = self.delays.clone();
        assert(delays@ =~= self.delays@);
        RetrierConfig { max_attempts: self.max_attempts, rand_delay: self.rand_delay, delays }
    }
}

/// The policy an operation is retried by unless another one is named.
pub open spec fn default_policy() -> RetrierConfigView {
    RetrierConfigView {
        max_attempts: 20,
        rand_delay: 50_000_000,
        delays: seq![
            50_000_000,
            50_000_000,
            50_000_000,
            100_000_000,
            300_000_000,
            500_000_000,
            1_000_000_000,
            5_000_000_000,
            10_000_000_000,
            60_000_000_000,
        ],
    }
}

impl Default for RetrierConfig {
    fn default() -> (config: Self)
        ensures
            config@ == default_policy(),
    {
        let mut delays: Vec<Duration> = Vec::new();
        delays.push(Duration::from_millis(50));
        delays.push(Duration::from_millis(50));
        delays.push(Duration::from_millis(50));
        delays.push(Duration::from_millis(100));
        delays.push(Duration::from_millis(300));
        delays.push(Duration::from_millis(500));
        delays.push(Duration::from_secs(1));
        delays.push(Duration::from_secs(5));
        delays.push(Duration::from_secs(10));
        delays.push(Duration::from_secs(60));
        let config = RetrierConfig {
            max_attempts: 20,
            rand_delay: Duration::from_millis(50),
            delays,
        };
        assert(config@.delays =~= default_policy().delays);
        config
    }
}

/// What an operation that is retried can fail with.
pub trait RetryError: Sized {
    /// Error returned when the operation is cancelled.
    fn from_cancellation() -> Self;

    /// Error returned when the attempt budget is spent, carrying the cause of the last attempt.
    fn from_spent_attempts(last_cause: Self) -> Self;
}

/// Outcome of one attempt of a retried operation.
#[derive(Debug)]
pub enum RetryStep<T, E> {
    /// The operation finished with this value.
    Done(T),
    /// The attempt failed for a reason worth retrying. The cause travels with the decision so that
    /// spending the whole attempt budget can report *why*, instead of a bare "attempts spent".
    Retry(E),
}

/// What happened to an operation since it was last decided about.
#[derive(Debug)]
pub enum RetryEvent<T, E> {
    /// The operation was cancelled, during an attempt or while waiting for the next one.
    Cancelled,
    /// An attempt ended.
    Attempted(Result<RetryStep<T, E>, E>),
}

/// What is to be done about an operation next.
#[derive(Debug)]
pub enum RetryAction<T, E> {
    /// The operation is over.
    Finish(Result<T, E>),
    /// This many attempts were made; another one is due after the delay that goes with the number.
    Wait(usize),
}

/// Applies a [`RetrierConfig`].
#[derive(Debug)]
pub struct Retrier {
    config: RetrierConfig,
}

impl View for Retrier {
    type V = RetrierConfigView;

    closed spec fn view(&self) -> RetrierConfigView {
        self.config@
    }
}

impl Retrier {
    /// Applies `config`.
    pub fn new(config: RetrierConfig) -> (retrier: Self)
        ensures
            retrier@ == config@,
    {
        Retrier { config }
    }

    /// Decides what follows an event, `attempts` having been made before it.
    ///
    /// An attempt that finished or failed for good ends the operation; one worth retrying ends it
    /// only once the budget is spent, with the error that carries its cause. The first attempt is
    /// made whatever the budget says.
    pub fn decide<T, E: RetryError>(&self, attempts: usize, event: RetryEvent<T, E>) -> (action:
        RetryAction<T, E>)
        requires
            attempts < usize::MAX,
        ensures
            match event {
                RetryEvent::Cancelled => action matches RetryAction::Finish(Err(e)) && call_ensures(
                    E::from_cancellation,
                    (),
                    e,
                ),
                RetryEvent::Attempted(Err(error)) => action == RetryAction::<T, E>::Finish(
                    Err(error),
                ),
                RetryEvent::Attempted(Ok(RetryStep::Done(value))) => action == RetryAction::<
                    T,
                    E,
                >::Finish(Ok(value)),
                RetryEvent::Attempted(Ok(RetryStep::Retry(cause))) => if attempts + 1
                    >= self@.max_attempts {
                    action matches RetryAction::Finish(Err(e)) && call_ensures(
                        E::from_spent_attempts,
                        (cause,),
                        e,
                    )
                } else {
                    action == RetryAction::<T, E>::Wait((attempts + 1) as usize)
                },
            },
    {
        match event {
            RetryEvent::Cancelled => RetryAction::Finish(Err(E::from_cancellation())),
            RetryEvent::Attempted(Err(error)) => RetryAction::Finish(Err(error)),
            RetryEvent::Attempted(Ok(RetryStep::Done(value))) => RetryAction::Finish(Ok(value)),
            RetryEvent::Attempted(Ok(RetryStep::Retry(cause))) => {
                let made: usize = attempts + 1;
                if made >= self.config.max_attempts {
                    RetryAction::Finish(Err(E::from_spent_attempts(cause)))
                } else {
                    RetryAction::Wait(made)
                }
            },
        }
    }

    /// The delay before an attempt, jitter aside.
    fn base_delay(&self, attempt: usize) -> (delay: Duration)
        ensures
            delay@ == self@.base_delay(attempt as int),
    {
        if attempt < self.config.delays.len() {
            self.config.delays[attempt]
        } else if self.config.delays.len() > 0 {
            self.config.delays[self.config.delays.len() - 1]
        } else {
            Duration::from_millis(FALLBACK_DELAY_MILLIS)
        }
    }

    /// The number of milliseconds jitter is drawn below.
    fn jitter_bound(&self) -> (bound: u64)
        ensures
            bound == self@.jitter_bound(),
    {
        let millis: u128 = self.config.rand_delay.as_millis();
        if millis <= u64::MAX as u128 {
            millis as u64
        } else {
            u64::MAX
        }
    }

    /// The delay before an attempt, `jitter` milliseconds of it jitter.
    pub fn delay_with_jitter(&self, attempt: usize, jitter: u64) -> (delay: Duration)
        requires
            self@.base_delay(attempt as int) + jitter * NANOS_PER_MILLI <= longest_duration(),
        ensures
            delay@ == self@.base_delay(attempt as int) + jitter * NANOS_PER_MILLI,
    {
        match self.base_delay(attempt).checked_add(&Duration::from_millis(jitter)) {
            Some(delay) => delay,
            None => Duration::longest(),
        }
    }

    /// The delay before an attempt, spread by chance so that workers do not retry all at once.
    pub fn calculate_delay(&self, attempt: usize) -> (delay: Duration)
        requires
            self@.has_delay(attempt as int),
        ensures
            self@.jitter_bound() == 0 ==> delay@ == self@.base_delay(attempt as int),
            self@.jitter_bound() > 0 ==> exists|jitter: int|
                0 <= jitter < self@.jitter_bound() && delay@ == #[trigger] (self@.base_delay(
                    attempt as int,
                ) + jitter * NANOS_PER_MILLI),
    {
        let bound: u64 = self.jitter_bound();
        let jitter: u64 = if bound == 0 {
            0
        } else {
            draw_below(bound)
        };
        assert(jitter * NANOS_PER_MILLI <= bound * NANOS_PER_MILLI);
        self.delay_with_jitter(attempt, jitter)
    }
}

} // verus!
