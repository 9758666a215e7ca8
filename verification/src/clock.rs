//! The wall clock, read once per sealed block for the header's creation
//! timestamp.

use vstd::prelude::*;

verus! {

/// Relies on `std::time::SystemTime::now`, `duration_since(UNIX_EPOCH)` and
/// `Duration::as_millis`: the wall clock as milliseconds since the Unix
/// epoch, or zero should the clock sit before the epoch. The reading is not a
/// function of the program's state, so nothing is promised of the value.
#[verifier::external_body]
pub fn now_millis() -> u128 {
    match std::time::SystemTime::now().duration_since(std::time::UNIX_EPOCH) {
        Ok(d) => d.as_millis(),
        Err(_) => 0,
    }
}

} // verus!
