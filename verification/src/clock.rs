use vstd::prelude::*;

verus! {

/// Relies on std::time::SystemTime::now, read as whole milliseconds since the
/// Unix epoch (0 if the system clock reads earlier than the epoch). Nothing is
/// assumed about the value returned: a caller states what holds of every
/// possible reading.
#[verifier::external_body]
pub(crate) fn now_ms() -> u64 {
    match std::time::SystemTime::now().duration_since(std::time::UNIX_EPOCH) {
        Ok(d) => d.as_millis() as u64,
        Err(_) => 0,
    }
}

} // verus!
