//! The wall clock, read through chrono.

use vstd::prelude::*;

verus! {

/// An upper bound on any instant chrono can represent, in seconds since the
/// epoch: its last year is 262142, about 8.2 * 10^12 seconds after 1970.
pub const CLOCK_SECONDS_BOUND: i64 = 10_000_000_000_000;

/// `chrono::Utc::now().timestamp()`: whole seconds since the Unix epoch.
/// chrono builds this instant from `SystemTime::now().duration_since(UNIX_EPOCH)`
/// (and stops the program on a clock set before 1970) and unwraps
/// `DateTime::from_timestamp`, which fails past its last representable year;
/// so the value is never negative and below `CLOCK_SECONDS_BOUND`. Nothing
/// more is stated: it is the machine's clock, and two calls may return
/// anything in that range.
#[verifier::external_body]
pub(crate) fn unix_seconds_now() -> (t: i64)
    ensures
        0 <= t < CLOCK_SECONDS_BOUND,
{
    chrono::Utc::now().timestamp()
}

/// `chrono::Utc::now().timestamp_millis()`: milliseconds since the Unix
/// epoch, `timestamp() * 1000` plus the milliseconds of the second; bounded
/// for the same reasons as `unix_seconds_now`.
#[verifier::external_body]
pub(crate) fn unix_millis_now() -> (t: i64)
    ensures
        0 <= t < CLOCK_SECONDS_BOUND * 1000,
{
    chrono::Utc::now().timestamp_millis()
}

} // verus!
