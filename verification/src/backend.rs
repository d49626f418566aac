//! The storage-agnostic counter contract: the value types shared by every
//! rate-limiting backend, and the trait for removing a key's bucket.

pub mod input_builder;
pub mod memory;
pub mod redis;

use crate::clock;
use vstd::prelude::*;

verus! {

/// Whether the current operation is admitted by the rate limiter.
#[derive(Copy, Clone, Debug, PartialEq, Eq, Structural)]
pub enum Decision {
    Allowed,
    Denied,
}

impl Decision {
    pub fn from_allowed(allowed: bool) -> (d: Self)
        ensures
            d == (if allowed {
                Decision::Allowed
            } else {
                Decision::Denied
            }),
    {
        if allowed {
            Self::Allowed
        } else {
            Self::Denied
        }
    }

    pub fn is_allowed(self) -> (r: bool)
        ensures
            r == (self == Decision::Allowed),
    {
        matches!(self, Self::Allowed)
    }

    pub fn is_denied(self) -> (r: bool)
        ensures
            r == (self == Decision::Denied),
    {
        matches!(self, Self::Denied)
    }
}

/// A default backend input structure.
///
/// This may not be suitable for all use-cases.
#[derive(Clone, Debug)]
pub struct SimpleInput {
    /// The rate limiting interval, in milliseconds.
    pub interval: u64,
    /// The total requests to be allowed within the interval.
    pub max_requests: u64,
    /// The rate limit key to be used for this request.
    pub key: String,
}

/// A default backend output structure.
///
/// This may not be suitable for all use-cases.
#[derive(Copy, Clone, Debug, PartialEq, Eq, Structural)]
pub struct SimpleOutput {
    /// Total number of requests that are permitted within the rate limit
    /// interval.
    pub limit: u64,
    /// Number of requests that will be permitted until the limit resets.
    pub remaining: u64,
    /// Time at which the rate limit resets, in milliseconds on the same
    /// clock that produced the request's time.
    pub reset: u64,
}

/// Whole seconds from `now_ms` until `reset`, rounded upwards, so that
/// waiting that many seconds guarantees the reset has passed; 0 once the
/// reset is already behind `now_ms`.
pub open spec fn seconds_until_reset_spec(reset: u64, now_ms: u64) -> u64 {
    if now_ms >= reset {
        0u64
    } else {
        (((reset - now_ms) + 999) / 1000) as u64
    }
}

impl SimpleOutput {
    /// Value for a `x-ratelimit-limit` header.
    pub fn limit(&self) -> (r: u64)
        ensures
            r == self.limit,
    {
        self.limit
    }

    /// Value for a `x-ratelimit-remaining` header.
    pub fn remaining(&self) -> (r: u64)
        ensures
            r == self.remaining,
    {
        self.remaining
    }

    /// Seconds until the rate limit resets, measured at `now_ms` (rounded
    /// upwards, so that it is guaranteed to be reset after waiting for the
    /// duration).
    pub fn seconds_until_reset_at(&self, now_ms: u64) -> (r: u64)
        ensures
            r == seconds_until_reset_spec(self.reset, now_ms),
    {
        if now_ms >= self.reset {
            0
        } else {
            let d: u64 = self.reset - now_ms;
            let r = d / 1000 + (if d % 1000 > 0 {
                1
            } else {
                0
            });
            assert(r == seconds_until_reset_spec(self.reset, now_ms)) by {
                assert(d == self.reset - now_ms);
                assert(d / 1000 + (if d % 1000 > 0 {
                    1int
                } else {
                    0int
                }) == (d + 999) / 1000) by (nonlinear_arith);
            };
            r
        }
    }

    /// Seconds until the rate limit resets, measured on the process clock.
    /// The clock reading itself cannot be predicted; the result is exact for
    /// whatever the clock returned.
    pub fn seconds_until_reset(&self) -> (r: u64)
        ensures
            exists|now_ms: u64| r == #[trigger] seconds_until_reset_spec(self.reset, now_ms),
    {
        let now_ms = clock::now_ms();
        let r = self.seconds_until_reset_at(now_ms);
        proof {
            assert(r == seconds_until_reset_spec(self.reset, now_ms));
        }
        r
    }
}

/// Additional functions for a backend that uses [`SimpleInput`] and
/// [`SimpleOutput`].
pub trait SimpleBackend {
    type Error;

    /// Removes the bucket for a given rate limit key.
    ///
    /// Intended to be used to reset a key before changing the interval.
    fn remove_key(&mut self, key: &str) -> Result<(), Self::Error>;
}

} // verus!
