//! Tests for retry with backoff and its transient-error classification.

use unpackrr::error::{Error, IoKind};
use unpackrr::operations::retry::{
    next_delay, retry, retry_with_config, RetryConfig, RetryOperation,
};

/// An operation that fails a set number of times with a chosen error,
/// then succeeds, counting its invocations and pauses.
struct Flaky {
    calls: usize,
    pauses: usize,
    failures_left: usize,
    transient: bool,
}

impl RetryOperation<i32> for Flaky {
    fn attempt(&mut self) -> Result<i32, Error> {
        self.calls += 1;
        if self.failures_left > 0 {
            self.failures_left -= 1;
            if self.transient {
                Err(Error::IO {
                    kind: IoKind::Interrupted,
                    message: "interrupted".to_string(),
                })
            } else {
                Err(Error::other("permanent error"))
            }
        } else {
            Ok(42)
        }
    }

    fn pause(&mut self, _delay_ms: u64) {
        self.pauses += 1;
    }
}

#[test]
fn test_retry_succeeds_on_first_attempt() {
    let mut op = Flaky { calls: 0, pauses: 0, failures_left: 0, transient: true };
    let (result, attempts) = retry(&mut op);
    assert_eq!(result.unwrap(), 42);
    assert_eq!(op.calls, 1);
    assert_eq!(attempts, 1);
}

#[test]
fn test_retry_succeeds_after_transient_failures() {
    let mut op = Flaky { calls: 0, pauses: 0, failures_left: 2, transient: true };
    let (result, attempts) = retry_with_config(RetryConfig::quick(), &mut op);

    assert_eq!(result.unwrap(), 42);
    assert_eq!(op.calls, 3); // two failures, then one success
    assert_eq!(attempts, 3);
}

#[test]
fn test_retry_fails_on_permanent_error() {
    let mut op = Flaky { calls: 0, pauses: 0, failures_left: 9, transient: false };
    let (result, attempts) = retry(&mut op);

    assert!(result.is_err());
    assert_eq!(op.calls, 1); // permanent errors are not retried
    assert_eq!(attempts, 1);
}

#[test]
fn test_retry_exhausts_attempts() {
    let mut op = Flaky { calls: 0, pauses: 0, failures_left: 10, transient: true };
    let config = RetryConfig {
        max_attempts: 2,
        initial_delay_ms: 10,
        backoff_mul_tenths: 10,
        max_delay_ms: 10,
    };

    let (result, attempts) = retry_with_config(config, &mut op);

    assert!(result.is_err());
    assert_eq!(op.calls, 3); // one initial attempt plus two retries
    assert_eq!(attempts, 3);
}

#[test]
fn max_attempts_three_means_three_invocations() {
    let mut op = Flaky { calls: 0, pauses: 0, failures_left: 2, transient: true };
    let config = RetryConfig { max_attempts: 3, ..Default::default() };
    let (result, attempts) = retry_with_config(config, &mut op);
    assert_eq!(result.unwrap(), 42);
    assert_eq!(op.calls, 3);
    assert_eq!(attempts, 3);
    assert_eq!(op.pauses, 2);
}

#[test]
fn delays_scale_and_cap() {
    let config = RetryConfig::default(); // doubles, capped at five seconds
    assert_eq!(next_delay(&config, 100), 200);
    assert_eq!(next_delay(&config, 4000), 5000);

    let gentle = RetryConfig::quick(); // half again, capped at one second
    assert_eq!(next_delay(&gentle, 50), 75);
    assert_eq!(next_delay(&gentle, 900), 1000);
}
