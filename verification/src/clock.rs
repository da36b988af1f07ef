//! The clock: fetch timestamps are seconds since the Unix epoch, read from
//! the system clock through an outside crate.

use vstd::prelude::*;

verus! {

/// Relies on chrono's `Utc::now` and `DateTime::timestamp` for the current
/// time in Unix seconds. The result depends on the clock, so nothing is
/// promised of it. (`Utc::now` aborts on a system clock set before the Unix
/// epoch.)
#[verifier::external_body]
pub(crate) fn now_timestamp() -> i64 {
    chrono::Utc::now().timestamp()
}

} // verus!
