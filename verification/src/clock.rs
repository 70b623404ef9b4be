//! The wall clock.

use vstd::prelude::*;

verus! {

/// The current time in milliseconds since the Unix epoch, read with
/// `chrono::Utc::now` and converted with `DateTime::timestamp_millis`.
/// Nothing is claimed of the value: the clock may stand anywhere and need
/// not advance between two readings. `Utc::now` gives up on a machine whose
/// clock stands before the epoch.
#[verifier::external_body]
pub(crate) fn current_time_millis() -> i64 {
    chrono::Utc::now().timestamp_millis()
}

} // verus!
