//! The wall clock, read through `chrono`.

use vstd::prelude::*;

verus! {

/// Every reading of the clock lies strictly between `-CLOCK_LIMIT` and
/// `CLOCK_LIMIT` milliseconds from the Unix epoch.
pub const CLOCK_LIMIT: i64 = 0x0400_0000_0000_0000;

/// Reads the current time with `chrono::Utc::now` and hands it back as
/// milliseconds since the Unix epoch (`DateTime::timestamp_millis`).
///
/// Trusted: nothing is claimed of the instant itself. The bound holds of
/// every `DateTime`: `timestamp_millis` multiplies a count of days that is
/// an `i32` by 86 400 000 and adds less than two days of milliseconds,
/// which stays below 2^58 in size. `Utc::now` panics where the system clock
/// stands before 1970.
#[verifier::external_body]
pub(crate) fn utc_now_millis() -> (now: i64)
    ensures
        -CLOCK_LIMIT < now < CLOCK_LIMIT,
{
    chrono::Utc::now().timestamp_millis()
}

} // verus!
