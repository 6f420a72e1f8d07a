//! The clock behind packet timestamps.

use std::time::{Duration, Instant};
use vstd::prelude::*;

verus! {

/// A point in time as `std` has it; nothing of it is visible here.
#[verifier::external_type_specification]
#[verifier::external_body]
pub struct ExInstant(std::time::Instant);

/// `std::time::Instant::now`: the present moment. Nothing is claimed of it.
pub assume_specification[ std::time::Instant::now ]() -> std::time::Instant;

/// `std::time::Instant::elapsed`: the time since `instant`. It depends on when it
/// is asked, so nothing is claimed of it.
pub assume_specification[ std::time::Instant::elapsed ](instant: &std::time::Instant) -> Duration;

/// `std::time::Duration::as_micros`: the whole microseconds in `duration`. What a
/// duration holds is not visible here, so nothing is claimed of the number.
pub assume_specification[ std::time::Duration::as_micros ](duration: &std::time::Duration) -> u128;

/// The timestamp that follows `last` when `elapsed` microseconds have passed: the
/// elapsed time, but never `last` or less as long as a larger number is left.
pub open spec fn stamp_after(last: u64, elapsed: u128) -> u64 {
    let now = if elapsed <= u64::MAX {
        elapsed as int
    } else {
        u64::MAX as int
    };
    let least = if last < u64::MAX {
        last + 1
    } else {
        u64::MAX as int
    };
    if now >= least {
        now as u64
    } else {
        least as u64
    }
}

/// The timestamp that follows `last` when `elapsed` microseconds have passed.
pub fn next_stamp(last: u64, elapsed: u128) -> (stamp: u64)
    ensures
        stamp == stamp_after(last, elapsed),
        stamp > last || stamp == u64::MAX,
{
    let now: u64 = if elapsed <= u64::MAX as u128 {
        elapsed as u64
    } else {
        u64::MAX
    };
    let least: u64 = if last < u64::MAX {
        last + 1
    } else {
        u64::MAX
    };
    if now >= least {
        now
    } else {
        least
    }
}

/// Whether `stamp` follows `last` by `clock`: it is the timestamp for the microseconds
/// in a time that `elapsed` gives for the clock.
pub open spec fn follows(clock: Instant, last: u64, stamp: u64) -> bool {
    exists|time: Duration, micros: u128|
        #[trigger] call_ensures(Instant::elapsed, (&clock,), time) && #[trigger] call_ensures(
            Duration::as_micros,
            (&time,),
            micros,
        ) && stamp == stamp_after(last, micros)
}

/// A timestamp that follows another is larger, as long as a larger number is left.
pub proof fn law_stamps_rise(clock: Instant, last: u64, stamp: u64)
    requires
        follows(clock, last, stamp),
    ensures
        stamp > last || stamp == u64::MAX,
{
}

/// The microseconds since `start`, out of the time that `elapsed` gives for it.
pub(crate) fn micros_since(start: &Instant) -> (micros: u128)
    ensures
        exists|time: Duration|
            #[trigger] call_ensures(Instant::elapsed, (start,), time)
                && call_ensures(Duration::as_micros, (&time,), micros),
{
    start.elapsed().as_micros()
}

/// A timestamp is the smallest number that is larger than the last one and has the time
/// passed, as far as its bits reach.
pub proof fn law_stamp_is_the_next_after_both(last: u64, elapsed: u128, other: u64)
    ensures
        stamp_after(last, elapsed) > last || last == u64::MAX,
        stamp_after(last, elapsed) >= elapsed || stamp_after(last, elapsed) == u64::MAX,
        other > last && other >= elapsed ==> stamp_after(last, elapsed) <= other,
        elapsed > last && elapsed <= u64::MAX ==> stamp_after(last, elapsed) == elapsed,
        elapsed <= last && last < u64::MAX ==> stamp_after(last, elapsed) == last + 1,
{
}

/// A timestamp that follows another by a clock has as many microseconds as a time that
/// the clock gives, or it is the next number after the other.
pub proof fn law_stamps_go_by_the_clock(clock: Instant, last: u64, stamp: u64)
    requires
        follows(clock, last, stamp),
    ensures
        exists|time: Duration, micros: u128|
            #[trigger] call_ensures(Instant::elapsed, (&clock,), time) && #[trigger] call_ensures(
                Duration::as_micros,
                (&time,),
                micros,
            ) && (stamp == micros && micros > last || stamp == last + 1 && micros <= last || stamp
                == u64::MAX && (micros >= u64::MAX || last == u64::MAX)),
{
}

} // verus!
