use vstd::prelude::*;

verus! {

/// Relies on std::time::SystemTime::now and Duration::as_secs: the current
/// wall-clock time as whole seconds since the Unix epoch, truncated to 32
/// bits. The result depends on the clock, so nothing is promised of it; a
/// clock set before the epoch yields 0 instead of a panic.
#[verifier::external_body]
pub(crate) fn unix_time_secs() -> u32 {
    match std::time::SystemTime::now().duration_since(std::time::UNIX_EPOCH) {
        Ok(elapsed) => elapsed.as_secs() as u32,
        Err(_) => 0,
    }
}

} // verus!
