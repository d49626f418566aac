//! A pluggable fixed-window rate-limiting library.
//!
//! Given a caller-supplied key, a time window and a maximum permitted count,
//! a backend decides whether to admit or reject the current operation, and
//! exposes enough state (remaining quota, reset time) for a caller to
//! communicate limits to clients.

mod clock;

pub mod backend;
pub mod middleware;
pub mod policy;

pub use middleware::HeaderCompatibleOutput;
