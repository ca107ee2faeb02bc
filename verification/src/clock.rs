//! Wall-clock access.
//!
//! The rate limiter and the interval statistics are specified over explicit
//! timestamps: nanoseconds since the Unix epoch, as a `u64`.  Only the
//! functions here touch the real clock; everything downstream takes the
//! timestamp as a plain argument and is verified for every value of it.

use vstd::prelude::*;

verus! {

/// Relies on time::OffsetDateTime::now_utc and unix_timestamp_nanos: the
/// current UTC wall-clock time as nanoseconds since the Unix epoch.  The
/// clock may move arbitrarily between calls, so nothing is promised of the
/// value.
#[verifier::external_body]
fn now_utc_unix_nanos() -> (r: i128) {
    time::OffsetDateTime::now_utc().unix_timestamp_nanos()
}

/// The current wall-clock time as nanoseconds since the Unix epoch, clamped
/// into `u64`.  Times before the epoch read as 0; the upper bound is beyond
/// the year 2500.
pub fn now_nanos() -> u64 {
    let n = now_utc_unix_nanos();
    if n < 0 {
        0
    } else if n > u64::MAX as i128 {
        u64::MAX
    } else {
        n as u64
    }
}

} // verus!
