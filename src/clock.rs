//! Readings of the system clock.

use vstd::prelude::*;

verus! {

/// Relies on std::time::SystemTime::now: milliseconds since the Unix epoch,
/// or 0 where the clock reads before it.
#[verifier::external_body]
pub fn now_ms() -> (r: i64) {
    std::time::SystemTime::now()
        .duration_since(std::time::UNIX_EPOCH)
        .map_or(0, |d| d.as_millis() as i64)
}

/// Relies on std::time::SystemTime::now: whole seconds since the Unix epoch,
/// or 0 where the clock reads before it.
#[verifier::external_body]
pub fn now_unix_secs() -> (r: u64) {
    std::time::SystemTime::now()
        .duration_since(std::time::UNIX_EPOCH)
        .unwrap_or_default()
        .as_secs()
}

} // verus!
