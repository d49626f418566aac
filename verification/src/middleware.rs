//! The contract between a backend's output and the response-mutation layer.
//!
//! The request interception and response plumbing itself is a thin adapter
//! around the counter contract and lives outside this library.

use vstd::prelude::*;

use crate::backend::SimpleOutput;

verus! {

/// A trait that a backend output should implement in order to feed the
/// standard rate-limit headers.
pub trait HeaderCompatibleOutput {
    /// Value for the `x-ratelimit-limit` header.
    fn limit(&self) -> u64;

    /// Value for the `x-ratelimit-remaining` header.
    fn remaining(&self) -> u64;

    /// Value for the `x-ratelimit-reset` and `retry-after` headers.
    ///
    /// This should be the number of seconds from now until the limit resets.
    /// If the limit has already reset this should return 0.
    fn seconds_until_reset(&self) -> u64;
}

impl HeaderCompatibleOutput for SimpleOutput {
    fn limit(&self) -> u64 {
        SimpleOutput::limit(self)
    }

    fn remaining(&self) -> u64 {
        SimpleOutput::remaining(self)
    }

    /// Seconds until the rate limit resets (rounded upwards, so that it is
    /// guaranteed to be reset after waiting for the duration).
    fn seconds_until_reset(&self) -> u64 {
        SimpleOutput::seconds_until_reset(self)
    }
}

} // verus!
