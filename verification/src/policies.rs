//! Retry and reconnection policies.
//!
//! A retry policy maps `(error, attempt, idempotent)` to a decision: retry on
//! the same node, move to the next, or surrender. A reconnection policy maps
//! an attempt index to `Some(delay)` — sleep, then try to reopen — or `None`,
//! give up.

use vstd::prelude::*;
use crate::error::Error;

verus! {

/// CQL error code for UNAVAILABLE.
pub const UNAVAILABLE_CODE: i32 = 0x1000;

/// CQL error code for OVERLOADED.
pub const OVERLOADED_CODE: i32 = 0x1001;

/// CQL error code for IS_BOOTSTRAPPING.
pub const IS_BOOTSTRAPPING_CODE: i32 = 0x1002;

/// CQL error code for WRITE_TIMEOUT.
pub const WRITE_TIMEOUT_CODE: i32 = 0x1100;

/// CQL error code for READ_TIMEOUT.
pub const READ_TIMEOUT_CODE: i32 = 0x1200;

/// What to do with a failed request.
#[derive(Clone, Copy, Debug, PartialEq, Eq, Structural)]
pub enum RetryDecision {
    /// Send the same request to the same node again.
    RetrySame,
    /// Send the same request to the next node.
    RetryNext,
    /// Surrender and report the error.
    DontRetry,
}

/// Decides, per failed attempt, whether a request is sent again.
pub trait RetryPolicy {
    /// The decision this policy owes for an error, an attempt index, and
    /// the request's idempotence.
    spec fn spec_decision(&self, error: Error, attempt: nat, idempotent: bool) -> RetryDecision;

    /// The decision for `error` on the given retry attempt (0 for the first
    /// retry), knowing whether the request is idempotent.
    fn decide(&self, error: &Error, attempt: usize, idempotent: bool) -> (d: RetryDecision)
        ensures
            d == self.spec_decision(*error, attempt as nat, idempotent),
    ;
}

/// The default policy: retry once on transient failures, move on from an
/// unavailable or overloaded node, and never repeat a request whose write
/// may have been applied unless it is idempotent.
#[derive(Clone, Copy, Debug, PartialEq, Eq, Structural)]
pub struct DefaultRetryPolicy;

/// The decision the default policy owes: a single retry, same node for
/// timeouts, next node for node-health errors and transport failures; a
/// write timeout or a transport failure is retried only when the request is
/// idempotent; protocol and all other errors surrender.
pub open spec fn spec_default_retry(error: Error, attempt: nat, idempotent: bool) -> RetryDecision {
    if attempt != 0 {
        RetryDecision::DontRetry
    } else {
        match error {
            Error::Server(e) => if e.code == WRITE_TIMEOUT_CODE {
                if idempotent {
                    RetryDecision::RetrySame
                } else {
                    RetryDecision::DontRetry
                }
            } else if e.code == READ_TIMEOUT_CODE {
                RetryDecision::RetrySame
            } else if e.code == UNAVAILABLE_CODE || e.code == OVERLOADED_CODE || e.code
                == IS_BOOTSTRAPPING_CODE {
                RetryDecision::RetryNext
            } else {
                RetryDecision::DontRetry
            },
            Error::Transport(_) => if idempotent {
                RetryDecision::RetryNext
            } else {
                RetryDecision::DontRetry
            },
            _ => RetryDecision::DontRetry,
        }
    }
}

impl RetryPolicy for DefaultRetryPolicy {
    open spec fn spec_decision(&self, error: Error, attempt: nat, idempotent: bool)
        -> RetryDecision {
        spec_default_retry(error, attempt, idempotent)
    }

    fn decide(&self, error: &Error, attempt: usize, idempotent: bool) -> (d: RetryDecision) {
        if attempt != 0 {
            return RetryDecision::DontRetry;
        }
        match error {
            Error::Server(e) => {
                if e.code == WRITE_TIMEOUT_CODE {
                    if idempotent {
                        RetryDecision::RetrySame
                    } else {
                        RetryDecision::DontRetry
                    }
                } else if e.code == READ_TIMEOUT_CODE {
                    RetryDecision::RetrySame
                } else if e.code == UNAVAILABLE_CODE || e.code == OVERLOADED_CODE || e.code
                    == IS_BOOTSTRAPPING_CODE {
                    RetryDecision::RetryNext
                } else {
                    RetryDecision::DontRetry
                }
            },
            Error::Transport(_) => {
                if idempotent {
                    RetryDecision::RetryNext
                } else {
                    RetryDecision::DontRetry
                }
            },
            _ => RetryDecision::DontRetry,
        }
    }
}

/// A policy that never retries: used while rotating over several nodes,
/// where the next node is preferred over waiting on a sick one.
#[derive(Clone, Copy, Debug, PartialEq, Eq, Structural)]
pub struct FallthroughRetryPolicy;

impl RetryPolicy for FallthroughRetryPolicy {
    open spec fn spec_decision(&self, error: Error, attempt: nat, idempotent: bool)
        -> RetryDecision {
        RetryDecision::DontRetry
    }

    fn decide(&self, error: &Error, attempt: usize, idempotent: bool) -> (d: RetryDecision) {
        RetryDecision::DontRetry
    }
}

/// Decides when, and whether, a broken connection is reopened.
pub trait ReconnectionPolicy {
    /// The delay this policy owes for an attempt index.
    spec fn spec_delay(&self, attempt: nat) -> Option<u64>;

    /// The delay in milliseconds before reopen attempt `attempt` (0-based),
    /// or `None` to give up.
    fn next_delay(&self, attempt: usize) -> (r: Option<u64>)
        ensures
            r == self.spec_delay(attempt as nat),
    ;
}

/// Never reconnect: one attempt, no schedule. The session uses it to fail
/// fast on a node while it still has others to rotate to.
#[derive(Clone, Copy, Debug, PartialEq, Eq, Structural)]
pub struct NeverReconnectionPolicy;

impl ReconnectionPolicy for NeverReconnectionPolicy {
    open spec fn spec_delay(&self, attempt: nat) -> Option<u64> {
        Option::None
    }

    fn next_delay(&self, attempt: usize) -> (r: Option<u64>) {
        Option::None
    }
}

/// The delay the exponential policy owes: the base delay doubled per
/// attempt, never above the cap.
pub open spec fn spec_exp_delay(base: u64, cap: u64, attempt: nat) -> u64
    decreases attempt,
{
    if attempt == 0 {
        if base <= cap {
            base
        } else {
            cap
        }
    } else {
        let prev = spec_exp_delay(base, cap, (attempt - 1) as nat);
        if prev >= cap {
            cap
        } else if prev * 2 <= cap {
            (prev * 2) as u64
        } else {
            cap
        }
    }
}

/// Exponential backoff: the base delay doubles on each attempt up to a cap,
/// and reconnection is attempted forever.
#[derive(Clone, Copy, Debug, PartialEq, Eq, Structural)]
pub struct ExponentialReconnectionPolicy {
    pub base_delay_ms: u64,
    pub max_delay_ms: u64,
}

impl ExponentialReconnectionPolicy {
    /// A schedule from `base_delay_ms`, doubling up to `max_delay_ms`.
    pub fn new(base_delay_ms: u64, max_delay_ms: u64) -> (r: ExponentialReconnectionPolicy)
        ensures
            r.base_delay_ms == base_delay_ms,
            r.max_delay_ms == max_delay_ms,
    {
        ExponentialReconnectionPolicy { base_delay_ms, max_delay_ms }
    }
}

impl Default for ExponentialReconnectionPolicy {
    /// Two seconds, doubling up to one minute.
    fn default() -> (r: ExponentialReconnectionPolicy)
        ensures
            r.base_delay_ms == 2000u64,
            r.max_delay_ms == 60000u64,
    {
        ExponentialReconnectionPolicy { base_delay_ms: 2000, max_delay_ms: 60000 }
    }
}

impl ReconnectionPolicy for ExponentialReconnectionPolicy {
    open spec fn spec_delay(&self, attempt: nat) -> Option<u64> {
        Some(spec_exp_delay(self.base_delay_ms, self.max_delay_ms, attempt))
    }

    fn next_delay(&self, attempt: usize) -> (r: Option<u64>) {
        let mut cur: u64 = if self.base_delay_ms <= self.max_delay_ms {
            self.base_delay_ms
        } else {
            self.max_delay_ms
        };
        let mut i: usize = 0;
        while i < attempt
            invariant
                i <= attempt,
                cur == spec_exp_delay(self.base_delay_ms, self.max_delay_ms, i as nat),
            decreases attempt - i,
        {
            if cur >= self.max_delay_ms {
                cur = self.max_delay_ms;
            } else if cur <= self.max_delay_ms / 2 {
                cur = cur * 2;
            } else {
                proof {
                    assert(cur * 2 > self.max_delay_ms) by (nonlinear_arith)
                        requires
                            cur > self.max_delay_ms / 2,
                            cur < self.max_delay_ms,
                    {
                        assert(self.max_delay_ms / 2 * 2 + 1 >= self.max_delay_ms);
                    }
                }
                cur = self.max_delay_ms;
            }
            i = i + 1;
        }
        Some(cur)
    }
}

} // verus!
