use vstd::prelude::*;

verus! {

/// A rate limit policy: one quota bucket's window, capacity and identity.
pub struct Policy {
    /// The rate limiting interval, in milliseconds.
    pub interval: u64,
    /// The total requests to be allowed within the interval.
    pub max_requests: usize,
    /// The rate limit key to be used for this request.
    pub key: String,
}

} // verus!
