//! Wall-clock and monotonic milliseconds, saturated into the integer widths the events carry.

use std::time::{Duration, Instant, SystemTime};

use vstd::prelude::*;

verus! {

#[verifier::external_type_specification]
#[verifier::external_body]
pub struct ExSystemTime(SystemTime);

#[verifier::external_type_specification]
#[verifier::external_body]
pub struct ExInstant(Instant);

/// Reads the wall clock with `SystemTime::now`; nothing is claimed of the time it returns.
#[verifier::external_body]
fn system_now() -> SystemTime {
    SystemTime::now()
}

/// `SystemTime::duration_since(UNIX_EPOCH)`, `None` when the clock is set before 1970;
/// nothing is claimed of the duration.
#[verifier::external_body]
fn since_unix_epoch(t: &SystemTime) -> Option<Duration> {
    t.duration_since(SystemTime::UNIX_EPOCH).ok()
}

/// `Instant::elapsed`: the time since `since` on the monotonic clock; nothing is claimed of it.
#[verifier::external_body]
fn instant_elapsed(since: &Instant) -> Duration {
    since.elapsed()
}

/// `Duration::as_millis`: whole milliseconds in `d`. `Duration` is opaque here, so nothing is
/// claimed of the number.
#[verifier::external_body]
fn duration_as_millis(d: &Duration) -> u128 {
    d.as_millis()
}

/// Milliseconds since the Unix epoch as a `u64`: 0 when the clock reads before the epoch,
/// `u64::MAX` when the count does not fit.
pub fn epoch_millis_u64(millis: Option<u128>) -> (r: u64)
    ensures
        millis is None ==> r == 0,
        millis matches Some(m) ==> (m <= u64::MAX ==> r == m) && (m > u64::MAX ==> r == u64::MAX),
{
    match millis {
        None => 0,
        Some(m) => {
            if m <= 18446744073709551615u128 {
                m as u64
            } else {
                u64::MAX
            }
        },
    }
}

/// A millisecond count as a `u32`, `u32::MAX` when it does not fit.
pub fn saturate_millis_u32(millis: u128) -> (r: u32)
    ensures
        millis <= u32::MAX ==> r == millis,
        millis > u32::MAX ==> r == u32::MAX,
{
    if millis <= 4294967295u128 {
        millis as u32
    } else {
        u32::MAX
    }
}

/// Milliseconds since the Unix epoch (0 before it, `u64::MAX` past the `u64` range).
/// The clock is read at the call, so no particular value is promised.
pub fn now_ms() -> u64 {
    let t = system_now();
    let millis = match since_unix_epoch(&t) {
        Some(d) => Some(duration_as_millis(&d)),
        None => None,
    };
    epoch_millis_u64(millis)
}

/// Milliseconds since `since` on the monotonic clock, saturated at `u32::MAX`.
/// The clock is read at the call, so no particular value is promised.
pub fn elapsed_ms(since: Instant) -> u32 {
    let d = instant_elapsed(&since);
    saturate_millis_u32(duration_as_millis(&d))
}

} // verus!
