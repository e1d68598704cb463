//! The decisions of the retrying supervisor.
//!
//! A supervised operation is sent to an actor over and over until it succeeds
//! or the retry strategy gives up. Which attempt comes next, whether it waits
//! first, and when to recreate the actor are decided here; the waiting, the
//! sending, and the floating-point growth of exponential delays (the
//! multiplier) are the application's.
use std::time::Duration;
use vstd::prelude::*;

verus! {

/// The retries were all used up.
#[derive(Clone, Copy, Debug, PartialEq, Eq, Structural)]
pub enum RetryError {
    Exhausted,
}

/// A retry strategy: its shape, its attempt limit (`None`: no limit) and its
/// delays. An exponential strategy's multiplier, a floating-point number, is
/// kept by the caller, which scales the initial delay by it.
#[derive(Clone, Copy, Debug, PartialEq, Eq)]
pub enum RetryStrategy {
    Exponential { max_attempts: Option<u32>, initial_delay: Duration, max_delay: Option<Duration> },
    Flat { max_attempts: Option<u32>, delay: Duration },
    NoRetry,
}

/// What precedes an attempt.
#[derive(Clone, Copy, Debug, PartialEq, Eq)]
pub enum AttemptDelay {
    /// No attempt is left.
    Exhausted,
    /// The attempt is made at once.
    Immediately,
    /// The attempt waits the strategy's fixed delay.
    FlatDelay { delay: Duration },
    /// The attempt waits `initial_delay` times the multiplier to the power
    /// `exponent`, capped by `max_delay` when there is one.
    ExponentialDelay { exponent: i64, initial_delay: Duration, max_delay: Option<Duration> },
}

/// The limit `max_attempts` is exceeded by `attempt`.
pub open spec fn over_limit(max_attempts: Option<u32>, attempt: u32) -> bool {
    match max_attempts {
        Some(max) => attempt > max,
        None => false,
    }
}

/// What precedes attempt number `attempt` (attempts count from 1).
pub open spec fn spec_delay_for_attempt(policy: RetryStrategy, attempt: u32) -> AttemptDelay {
    match policy {
        RetryStrategy::NoRetry => if attempt > 1 {
            AttemptDelay::Exhausted
        } else {
            AttemptDelay::Immediately
        },
        RetryStrategy::Flat { max_attempts, delay } => if over_limit(max_attempts, attempt) {
            AttemptDelay::Exhausted
        } else if attempt == 1 {
            AttemptDelay::Immediately
        } else {
            AttemptDelay::FlatDelay { delay }
        },
        RetryStrategy::Exponential { max_attempts, initial_delay, max_delay } => if over_limit(
            max_attempts,
            attempt,
        ) {
            AttemptDelay::Exhausted
        } else if attempt == 1 {
            AttemptDelay::Immediately
        } else {
            AttemptDelay::ExponentialDelay { exponent: (attempt - 2) as i64, initial_delay, max_delay }
        },
    }
}

impl RetryStrategy {
    /// What precedes attempt number `attempt`: the first attempt goes at once,
    /// later ones wait the strategy's delay, and none is left past the limit
    /// (past the first attempt when the strategy does not retry).
    pub fn delay_for_attempt(&self, attempt: u32) -> (r: AttemptDelay)
        ensures
            r == spec_delay_for_attempt(*self, attempt),
    {
        match self {
            RetryStrategy::NoRetry => {
                if attempt > 1 {
                    AttemptDelay::Exhausted
                } else {
                    AttemptDelay::Immediately
                }
            },
            RetryStrategy::Flat { max_attempts, delay } => {
                let over = match max_attempts {
                    Some(max) => attempt > *max,
                    None => false,
                };
                if over {
                    AttemptDelay::Exhausted
                } else if attempt == 1 {
                    AttemptDelay::Immediately
                } else {
                    AttemptDelay::FlatDelay { delay: *delay }
                }
            },
            RetryStrategy::Exponential { max_attempts, initial_delay, max_delay } => {
                let over = match max_attempts {
                    Some(max) => attempt > *max,
                    None => false,
                };
                if over {
                    AttemptDelay::Exhausted
                } else if attempt == 1 {
                    AttemptDelay::Immediately
                } else {
                    AttemptDelay::ExponentialDelay {
                        exponent: attempt as i64 - 2,
                        initial_delay: *initial_delay,
                        max_delay: *max_delay,
                    }
                }
            },
        }
    }
}

/// How an attempt ended.
#[derive(Clone, Copy, Debug, PartialEq, Eq, Structural)]
pub enum AttemptOutcome {
    /// The actor could not be reached, most likely because it panicked.
    MailboxError,
    /// The actor answered with a failure.
    Failed,
    /// The actor answered with a success.
    Succeeded,
}

/// What the supervisor does next.
#[derive(Clone, Copy, Debug, PartialEq, Eq)]
pub enum RetryStep {
    /// Make attempt `attempt`, after `delay`.
    Attempt { attempt: u32, delay: AttemptDelay },
    /// Stop: the last answer is the result.
    Done,
    /// Stop: the retries are used up.
    GiveUp,
}

/// The state of one supervised send: the number of the next attempt, and
/// whether the actor must be recreated before it.
#[derive(Clone, Copy, Debug)]
pub struct RetryLoop {
    pub policy: RetryStrategy,
    pub attempt: u32,
    pub recreate_actor: bool,
}

impl RetryLoop {
    /// A send that has not made its first attempt yet.
    pub fn new(policy: RetryStrategy) -> (r: RetryLoop)
        ensures
            r.policy == policy,
            r.attempt == 1,
            !r.recreate_actor,
    {
        RetryLoop { policy, attempt: 1, recreate_actor: false }
    }

    /// The next step: the next attempt with its delay, or giving up when the
    /// strategy has no attempt left.
    pub fn next_step(&self) -> (r: RetryStep)
        ensures
            spec_delay_for_attempt(self.policy, self.attempt) == AttemptDelay::Exhausted ==> r
                == RetryStep::GiveUp,
            spec_delay_for_attempt(self.policy, self.attempt) != AttemptDelay::Exhausted ==> r
                == (RetryStep::Attempt {
                attempt: self.attempt,
                delay: spec_delay_for_attempt(self.policy, self.attempt),
            }),
    {
        let delay = self.policy.delay_for_attempt(self.attempt);
        match delay {
            AttemptDelay::Exhausted => RetryStep::GiveUp,
            _ => RetryStep::Attempt { attempt: self.attempt, delay },
        }
    }

    /// Records how the current attempt ended: a success ends the send; a
    /// failure moves on to the next attempt; an unreachable actor also asks
    /// for the actor to be recreated first.
    pub fn record(&mut self, outcome: AttemptOutcome) -> (r: RetryStep)
        requires
            old(self).attempt < u32::MAX,
        ensures
            final(self).policy == old(self).policy,
            outcome == AttemptOutcome::Succeeded ==> r == RetryStep::Done && *final(self) == *old(self),
            outcome != AttemptOutcome::Succeeded ==> {
                &&& final(self).attempt == old(self).attempt + 1
                &&& final(self).recreate_actor == (outcome == AttemptOutcome::MailboxError)
                &&& r == final(self).next_step_spec()
            },
    {
        match outcome {
            AttemptOutcome::Succeeded => RetryStep::Done,
            AttemptOutcome::Failed => {
                self.attempt = self.attempt + 1;
                self.recreate_actor = false;
                self.next_step()
            },
            AttemptOutcome::MailboxError => {
                self.attempt = self.attempt + 1;
                self.recreate_actor = true;
                self.next_step()
            },
        }
    }

    /// The step `next_step` returns.
    pub open spec fn next_step_spec(&self) -> RetryStep {
        if spec_delay_for_attempt(self.policy, self.attempt) == AttemptDelay::Exhausted {
            RetryStep::GiveUp
        } else {
            RetryStep::Attempt {
                attempt: self.attempt,
                delay: spec_delay_for_attempt(self.policy, self.attempt),
            }
        }
    }
}

/// A strategy makes at most its limit of attempts: an attempt past the limit
/// is never made (past the first one when the strategy does not retry), and
/// the first attempt, within any limit of one or more, is made at once.
pub proof fn law_attempts_bounded(policy: RetryStrategy, attempt: u32)
    ensures
        spec_delay_for_attempt(policy, attempt) != AttemptDelay::Exhausted ==> match policy {
            RetryStrategy::NoRetry => attempt <= 1,
            RetryStrategy::Flat { max_attempts, .. } => !over_limit(max_attempts, attempt),
            RetryStrategy::Exponential { max_attempts, .. } => !over_limit(max_attempts, attempt),
        },
        attempt == 1 && !over_limit(
            match policy {
                RetryStrategy::Flat { max_attempts, .. } => max_attempts,
                RetryStrategy::Exponential { max_attempts, .. } => max_attempts,
                RetryStrategy::NoRetry => None,
            },
            1,
        ) ==> spec_delay_for_attempt(policy, attempt) == AttemptDelay::Immediately,
{
}

/// Once the strategy gives up it keeps giving up for every later attempt: a
/// supervised send never resumes after running out of attempts.
pub proof fn law_exhaustion_is_final(policy: RetryStrategy, attempt: u32, later: u32)
    requires
        attempt <= later,
        spec_delay_for_attempt(policy, attempt) == AttemptDelay::Exhausted,
    ensures
        spec_delay_for_attempt(policy, later) == AttemptDelay::Exhausted,
{
}

/// The delay before each attempt, by strategy: the first attempt goes at
/// once; a flat strategy waits exactly its delay before every later attempt
/// within its limit; an exponential strategy waits its initial delay scaled
/// to the power `attempt - 2`, capped by its maximum; past the limit (past
/// the first attempt for a strategy that does not retry) nothing is left.
pub proof fn law_delay_before_each_attempt(policy: RetryStrategy, attempt: u32)
    requires
        attempt >= 1,
    ensures
        ({
            let within = match policy {
                RetryStrategy::Flat { max_attempts, .. } => match max_attempts {
                    Some(m) => attempt <= m,
                    None => true,
                },
                RetryStrategy::Exponential { max_attempts, .. } => match max_attempts {
                    Some(m) => attempt <= m,
                    None => true,
                },
                RetryStrategy::NoRetry => attempt == 1,
            };
            &&& !within ==> spec_delay_for_attempt(policy, attempt) == AttemptDelay::Exhausted
            &&& within && attempt == 1 ==> spec_delay_for_attempt(policy, attempt) == AttemptDelay::Immediately
            &&& within && attempt > 1 ==> match policy {
                RetryStrategy::Flat { delay, .. } => spec_delay_for_attempt(policy, attempt)
                    == AttemptDelay::FlatDelay { delay },
                RetryStrategy::Exponential { initial_delay, max_delay, .. } => spec_delay_for_attempt(
                    policy,
                    attempt,
                ) == AttemptDelay::ExponentialDelay { exponent: (attempt - 2) as i64, initial_delay, max_delay },
                RetryStrategy::NoRetry => false,
            }
        }),
{
}

} // verus!
