//! The clock by which the scheduler goes.

use vstd::prelude::*;

verus! {

/// Reads the current time, in milliseconds since the Unix epoch.
///
/// Trusted: calls `chrono::Utc::now` and `chrono::DateTime::timestamp_millis`.
/// The value is whatever the system clock says, so nothing is claimed of it.
/// The outside function panics when the system clock stands before 1970.
#[verifier::external_body]
pub(crate) fn now_millis() -> (now: i64) {
    chrono::Utc::now().timestamp_millis()
}

} // verus!
