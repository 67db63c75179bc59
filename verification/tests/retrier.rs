//! Retrying: which attempts follow, and how long before each of them.

use jobmanager::retrier::{
    Retrier, RetrierConfig, RetryAction, RetryError, RetryEvent, RetryStep,
};
use jobmanager::time::Duration;

#[derive(Debug, PartialEq, Eq)]
enum TestError {
    Cancelled,
    Transient(u32),
    AttemptsSpent(u32),
}

impl RetryError for TestError {
    fn from_cancellation() -> Self {
        Self::Cancelled
    }

    fn from_spent_attempts(last_cause: Self) -> Self {
        match last_cause {
            Self::Transient(marker) => Self::AttemptsSpent(marker),
            other => other,
        }
    }
}

fn build_fast_retrier(max_attempts: usize) -> Retrier {
    Retrier::new(RetrierConfig {
        max_attempts,
        rand_delay: Duration::from_millis(1),
        delays: vec![Duration::from_millis(1)],
    })
}

/// Runs the attempts one after another without waiting between them.
fn retry(
    retrier: &Retrier,
    mut attempt: impl FnMut() -> Result<RetryStep<u32, TestError>, TestError>,
) -> Result<u32, TestError> {
    let mut attempts = 0;
    loop {
        match retrier.decide(attempts, RetryEvent::Attempted(attempt())) {
            RetryAction::Finish(result) => return result,
            RetryAction::Wait(made) => attempts = made,
        }
    }
}

#[test]
fn test_spent_attempts_report_the_cause_of_the_last_attempt() {
    let retrier = build_fast_retrier(3);
    let mut attempt_marker = 0;

    let error = retry(&retrier, || {
        attempt_marker += 1;
        Ok(RetryStep::Retry(TestError::Transient(attempt_marker)))
    })
    .expect_err("an operation that never succeeds must not report success");

    assert_eq!(error, TestError::AttemptsSpent(3));
}

/// The cancellation comes during the first attempt, so it is what the wait for the second one meets.
#[test]
fn test_cancellation_during_an_attempt_stops_the_retry_loop() {
    let retrier = build_fast_retrier(10);
    let mut attempts = 0;

    let mut attempt = || {
        attempts += 1;
        Ok(RetryStep::<(), TestError>::Retry(TestError::Transient(1)))
    };
    let RetryAction::Wait(made) = retrier.decide(0, RetryEvent::Attempted(attempt())) else {
        panic!("an attempt worth retrying must be followed by a wait")
    };
    let RetryAction::Finish(result) = retrier.decide::<(), TestError>(made, RetryEvent::Cancelled) else {
        panic!("a cancellation must end the operation")
    };
    let error = result.expect_err("a cancelled retry must not report success");

    assert_eq!(error, TestError::Cancelled);
    assert_eq!(attempts, 1, "cancellation must stop the loop before the next attempt");
}

#[test]
fn an_attempt_that_finishes_ends_the_operation() {
    let retrier = build_fast_retrier(5);
    let mut made = 0;

    let value = retry(&retrier, || {
        made += 1;
        Ok(if made < 3 {
            RetryStep::Retry(TestError::Transient(made))
        } else {
            RetryStep::Done(made)
        })
    });

    assert_eq!(value, Ok(3));
}

#[test]
fn an_attempt_that_fails_for_good_ends_the_operation() {
    let retrier = build_fast_retrier(5);
    let mut made = 0;

    let value = retry(&retrier, || {
        made += 1;
        Err(TestError::Transient(made))
    });

    assert_eq!(value, Err(TestError::Transient(1)));
}

/// The first attempt is made whatever the budget says.
#[test]
fn an_empty_budget_still_makes_one_attempt() {
    let retrier = build_fast_retrier(0);

    assert_eq!(retry(&retrier, || Ok(RetryStep::Done(9))), Ok(9));
    assert_eq!(
        retry(&retrier, || Ok(RetryStep::Retry(TestError::Transient(1)))),
        Err(TestError::AttemptsSpent(1))
    );
}

#[test]
fn the_delay_of_an_attempt_is_the_one_named_for_it_or_the_last() {
    let retrier = Retrier::new(RetrierConfig {
        max_attempts: 9,
        rand_delay: Duration::zero(),
        delays: vec![Duration::from_millis(10), Duration::from_secs(2)],
    });

    assert_eq!(retrier.calculate_delay(0), Duration::from_millis(10));
    assert_eq!(retrier.calculate_delay(1), Duration::from_secs(2));
    assert_eq!(retrier.calculate_delay(7), Duration::from_secs(2));
    assert_eq!(retrier.delay_with_jitter(0, 3), Duration::from_millis(13));
}

#[test]
fn an_attempt_no_delay_is_named_for_waits_the_fallback() {
    let retrier = Retrier::new(RetrierConfig {
        max_attempts: 9,
        rand_delay: Duration::zero(),
        delays: Vec::new(),
    });

    assert_eq!(retrier.calculate_delay(0), Duration::from_millis(200));
}

/// Draws repeatedly: every delay lies within the jitter above the base, in whole milliseconds, and the
/// draws are not all the same.
#[test]
fn the_delay_is_spread_by_the_jitter() {
    let retrier = Retrier::new(RetrierConfig {
        max_attempts: 9,
        rand_delay: Duration::from_millis(50),
        delays: vec![Duration::from_millis(100)],
    });

    let delays: Vec<Duration> = (0..100).map(|_| retrier.calculate_delay(0)).collect();

    for delay in &delays {
        assert!((Duration::from_millis(100)..Duration::from_millis(150)).contains(delay), "{delay:?}");
        assert_eq!(delay.as_nanos() % 1_000_000, 0);
    }
    assert!(delays.iter().any(|delay| *delay != delays[0]));
}

#[test]
fn the_default_policy_backs_off_to_a_minute() {
    let config = RetrierConfig::default();

    assert_eq!(config.max_attempts, 20);
    assert_eq!(config.rand_delay, Duration::from_millis(50));
    let millis: Vec<u128> = config.delays.iter().map(Duration::as_millis).collect();
    assert_eq!(millis, vec![50, 50, 50, 100, 300, 500, 1000, 5000, 10_000, 60_000]);
}
