//! The trusted boundary to the wall clock.

use vstd::prelude::*;

verus! {

/// Relies on std::time::SystemTime::now and
/// std::time::SystemTime::duration_since: whole seconds of the current
/// wall clock since the Unix epoch, or zero for a clock set before it.
/// Nothing is promised of the value; uniqueness of timestamp-derived
/// names rests on `Stamper`, not on the clock.
#[verifier::external_body]
pub(crate) fn now_unix_secs() -> u64 {
    match std::time::SystemTime::now().duration_since(std::time::UNIX_EPOCH) {
        Ok(d) => d.as_secs(),
        Err(_) => 0,
    }
}

} // verus!
