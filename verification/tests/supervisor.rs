use std::time::Duration;

use o324_daemon::common::retry::{AttemptDelay, AttemptOutcome, RetryLoop, RetryStep, RetryStrategy};

/// The wait before an attempt: the library's delay, with an exponential
/// delay scaled by `multiplier` in floating point and capped, as the
/// daemon's supervisor does.
fn wait(delay: AttemptDelay, multiplier: f64) -> Option<Duration> {
    match delay {
        AttemptDelay::Exhausted => None,
        AttemptDelay::Immediately => Some(Duration::ZERO),
        AttemptDelay::FlatDelay { delay } => Some(delay),
        AttemptDelay::ExponentialDelay { exponent, initial_delay, max_delay } => {
            let secs = initial_delay.as_secs_f64() * multiplier.powf(exponent as f64);
            let mut d = Duration::from_secs_f64(secs);
            if let Some(m) = max_delay {
                d = d.min(m);
            }
            Some(d)
        }
    }
}

fn flat(max_attempts: Option<u32>) -> RetryStrategy {
    RetryStrategy::Flat { max_attempts, delay: Duration::from_millis(10) }
}

fn exponential(max_attempts: Option<u32>) -> RetryStrategy {
    RetryStrategy::Exponential {
        max_attempts,
        initial_delay: Duration::from_millis(10),
        max_delay: Some(Duration::from_millis(50)),
    }
}

#[test]
fn test_delay_for_attempt_exponential() {
    let strategy = exponential(Some(5));
    let at = |attempt: u32| wait(strategy.delay_for_attempt(attempt), 2.0);
    assert_eq!(at(1), Some(Duration::ZERO));
    assert_eq!(at(2), Some(Duration::from_millis(10)));
    assert_eq!(at(3), Some(Duration::from_millis(20)));
    assert_eq!(at(4), Some(Duration::from_millis(40)));
    assert_eq!(at(5), Some(Duration::from_millis(50)));
    assert_eq!(at(6), None);
}

#[test]
fn test_delay_for_attempt_flat_with_none_attempts() {
    let strategy = flat(None);
    assert_eq!(strategy.delay_for_attempt(2), AttemptDelay::FlatDelay { delay: Duration::from_millis(10) });
    let at = |attempt: u32| wait(strategy.delay_for_attempt(attempt), 1.0);
    assert_eq!(at(1), Some(Duration::ZERO));
    assert_eq!(at(2), Some(Duration::from_millis(10)));
    assert_eq!(at(100), Some(Duration::from_millis(10)));
}

#[test]
fn delay_for_attempt_gives_exponents() {
    let strategy = exponential(Some(5));
    let initial_delay = Duration::from_millis(10);
    let max_delay = Some(Duration::from_millis(50));
    assert_eq!(strategy.delay_for_attempt(1), AttemptDelay::Immediately);
    assert_eq!(strategy.delay_for_attempt(2), AttemptDelay::ExponentialDelay { exponent: 0, initial_delay, max_delay });
    assert_eq!(strategy.delay_for_attempt(5), AttemptDelay::ExponentialDelay { exponent: 3, initial_delay, max_delay });
    assert_eq!(strategy.delay_for_attempt(6), AttemptDelay::Exhausted);
}

#[test]
fn no_retry_makes_one_attempt() {
    let strategy = RetryStrategy::NoRetry;
    assert_eq!(strategy.delay_for_attempt(1), AttemptDelay::Immediately);
    assert_eq!(strategy.delay_for_attempt(2), AttemptDelay::Exhausted);
}

/// Runs a supervised send whose attempts end as `outcomes` say, and returns
/// the last step and the number of attempts made.
fn run(strategy: RetryStrategy, outcomes: &[AttemptOutcome]) -> (RetryStep, usize, usize) {
    let mut lp = RetryLoop::new(strategy);
    let mut step = lp.next_step();
    let mut calls = 0;
    let mut recreated = 0;
    while let RetryStep::Attempt { .. } = step {
        if lp.recreate_actor {
            recreated += 1;
        }
        let outcome = outcomes.get(calls).copied().unwrap_or(AttemptOutcome::Succeeded);
        calls += 1;
        step = lp.record(outcome);
    }
    (step, calls, recreated)
}

#[test]
fn test_exponential_succeeds_after_retries() {
    let strategy = exponential(Some(4));
    let (step, calls, _) = run(strategy, &[AttemptOutcome::Failed, AttemptOutcome::Failed]);
    assert_eq!(step, RetryStep::Done);
    assert_eq!(calls, 3);
}

#[test]
fn test_exponential_exhausted() {
    let strategy = exponential(Some(3));
    let outcomes = [AttemptOutcome::Failed, AttemptOutcome::Failed, AttemptOutcome::Failed];
    let (step, calls, _) = run(strategy, &outcomes);
    assert_eq!(step, RetryStep::GiveUp);
    assert_eq!(calls, 3);
}

#[test]
fn test_retry_send_recreates_actor_after_panic() {
    let strategy = flat(Some(5));
    let outcomes = [AttemptOutcome::MailboxError, AttemptOutcome::MailboxError, AttemptOutcome::Failed];
    let (step, calls, recreated) = run(strategy, &outcomes);
    assert_eq!(step, RetryStep::Done);
    assert_eq!(calls, 4);
    assert_eq!(recreated, 2);
}

#[test]
fn test_start_with_retry_exhausts_after_panics() {
    let strategy = flat(Some(3));
    let outcomes = [AttemptOutcome::MailboxError; 5];
    let (step, calls, _) = run(strategy, &outcomes);
    assert_eq!(step, RetryStep::GiveUp);
    assert_eq!(calls, 3);
}

#[test]
fn exhaustion_stays_final() {
    let strategy = flat(Some(2));
    for attempt in 3..50 {
        assert_eq!(strategy.delay_for_attempt(attempt), AttemptDelay::Exhausted);
    }
}
