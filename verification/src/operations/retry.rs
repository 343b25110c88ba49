//! Retry with exponential backoff for transient failures.
//!
//! An operation is retried only when its error is classified transient;
//! permanent errors and exhausted attempts return the last error at
//! once. Delays grow by a multiplier, carried in tenths so that halves
//! are exact, and are capped. The waiting itself goes through the
//! operation's own `pause`, so a driver may sleep, await or spin as it
//! sees fit.

use vstd::prelude::*;

use crate::error::{is_transient_spec, Error};

verus! {

/// Configuration for retry behavior.
#[derive(Debug, Clone, PartialEq, Eq)]
pub struct RetryConfig {
    /// Maximum number of retries, not counting the initial attempt.
    pub max_attempts: usize,
    /// Delay before the first retry, in milliseconds.
    pub initial_delay_ms: u64,
    /// Backoff multiplier in tenths: twenty doubles the delay each
    /// time, ten keeps it constant.
    pub backoff_mul_tenths: u64,
    /// Cap on the delay between retries, in milliseconds.
    pub max_delay_ms: u64,
}

impl Default for RetryConfig {
    /// Three retries, starting at a tenth of a second and doubling up
    /// to five seconds.
    fn default() -> (r: RetryConfig)
        ensures
            r == (RetryConfig {
                max_attempts: 3usize,
                initial_delay_ms: 100u64,
                backoff_mul_tenths: 20u64,
                max_delay_ms: 5000u64,
            }),
    {
        RetryConfig {
            max_attempts: 3,
            initial_delay_ms: 100,
            backoff_mul_tenths: 20,
            max_delay_ms: 5000,
        }
    }
}

impl RetryConfig {
    /// A configuration for quick retries: few attempts, short delays.
    pub fn quick() -> (r: RetryConfig)
        ensures
            r == (RetryConfig {
                max_attempts: 2usize,
                initial_delay_ms: 50u64,
                backoff_mul_tenths: 15u64,
                max_delay_ms: 1000u64,
            }),
    {
        RetryConfig {
            max_attempts: 2,
            initial_delay_ms: 50,
            backoff_mul_tenths: 15,
            max_delay_ms: 1000,
        }
    }

    /// A configuration for persistent retries: many attempts, longer
    /// delays.
    pub fn persistent() -> (r: RetryConfig)
        ensures
            r == (RetryConfig {
                max_attempts: 5usize,
                initial_delay_ms: 200u64,
                backoff_mul_tenths: 20u64,
                max_delay_ms: 10000u64,
            }),
    {
        RetryConfig {
            max_attempts: 5,
            initial_delay_ms: 200,
            backoff_mul_tenths: 20,
            max_delay_ms: 10000,
        }
    }
}

/// The delay after one more failure: scaled by the multiplier and
/// capped.
pub open spec fn next_delay_spec(config: RetryConfig, delay: u64) -> u64 {
    let scaled = delay * config.backoff_mul_tenths / 10;
    if scaled > config.max_delay_ms {
        config.max_delay_ms
    } else {
        scaled as u64
    }
}

/// Scale a delay by the backoff multiplier, capping it at the
/// configured maximum.
pub fn next_delay(config: &RetryConfig, delay: u64) -> (r: u64)
    ensures
        r == next_delay_spec(*config, delay),
{
    proof {
        assert((delay as int) * (config.backoff_mul_tenths as int) <= (u64::MAX as int) * (
        u64::MAX as int)) by (nonlinear_arith)
            requires
                delay <= u64::MAX,
                config.backoff_mul_tenths <= u64::MAX,
        ;
    }
    let scaled: u128 = (delay as u128) * (config.backoff_mul_tenths as u128) / 10;
    if scaled > config.max_delay_ms as u128 {
        config.max_delay_ms
    } else {
        scaled as u64
    }
}

/// One more attempt is made only for a transient error with attempts
/// to spare.
pub open spec fn should_retry_spec(e: Error, attempts: nat, config: RetryConfig) -> bool {
    is_transient_spec(e) && attempts <= config.max_attempts
}

/// Decide whether a failed attempt is retried: the error must be
/// transient and the attempt budget not yet spent.
pub fn should_retry(e: &Error, attempts: usize, config: &RetryConfig) -> (r: bool)
    ensures
        r == should_retry_spec(*e, attempts as nat, *config),
{
    e.is_transient() && attempts <= config.max_attempts
}

/// A fallible, repeatable operation under retry, together with the way
/// it waits between attempts. A driver implements the pause with a real
/// sleep; a test may count invocations instead.
pub trait RetryOperation<T> {
    /// Run the operation once.
    fn attempt(&mut self) -> Result<T, Error>;

    /// Wait out the given delay before the next attempt.
    fn pause(&mut self, delay_ms: u64);
}

/// Run an operation under the given retry configuration.
///
/// The operation runs once; on a transient error it pauses and runs
/// again, with the delay scaled and capped each time, until it succeeds
/// or the attempts are spent. A permanent error is returned at once.
/// What comes back is whatever the final attempt returned, together
/// with how many attempts were made: always at least one and at most
/// one more than the retry budget, and a transient error comes back
/// only once the whole budget is spent — anything returned earlier is
/// a success or a permanent error.
pub fn retry_with_config<T, F: RetryOperation<T>>(config: RetryConfig, operation: &mut F) -> (r: (
    Result<T, Error>,
    usize,
))
    requires
        config.max_attempts < usize::MAX,
    ensures
        1 <= r.1 <= config.max_attempts + 1,
        (r.0 matches Err(e) && is_transient_spec(e)) ==> r.1 == config.max_attempts + 1,
{
    let mut attempts: usize = 0;
    let mut delay = config.initial_delay_ms;
    loop
        invariant
            attempts <= config.max_attempts,
            config.max_attempts < usize::MAX,
        decreases config.max_attempts - attempts,
    {
        match operation.attempt() {
            Ok(value) => {
                return (Ok(value), attempts + 1);
            },
            Err(e) => {
                attempts = attempts + 1;
                if !should_retry(&e, attempts, &config) {
                    return (Err(e), attempts);
                }
                operation.pause(delay);
                delay = next_delay(&config, delay);
            },
        }
    }
}

/// Run an operation under the default retry configuration: up to three
/// retries, so at most four attempts in all, and a transient error is
/// returned only after the fourth.
pub fn retry<T, F: RetryOperation<T>>(operation: &mut F) -> (r: (Result<T, Error>, usize))
    ensures
        1 <= r.1 <= 4,
        (r.0 matches Err(e) && is_transient_spec(e)) ==> r.1 == 4,
{
    retry_with_config(Default::default(), operation)
}

} // verus!
