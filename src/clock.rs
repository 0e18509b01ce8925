//! Wall-clock access.
use vstd::prelude::*;

verus! {

/// Relies on `std::time::SystemTime::now` and `duration_since(UNIX_EPOCH)`:
/// whole seconds since the Unix epoch, or `None` when the clock reads before
/// it. Nothing is promised of the value: it is whatever the wall clock says.
#[verifier::external_body]
fn unix_seconds() -> (r: Option<u64>) {
    std::time::SystemTime::now().duration_since(std::time::UNIX_EPOCH).ok().map(|d| d.as_secs())
}

/// Seconds since the Unix epoch by the wall clock; 0 when the clock is
/// unavailable.
pub fn current_timestamp() -> (r: u64) {
    match unix_seconds() {
        Some(s) => s,
        None => 0,
    }
}

} // verus!
