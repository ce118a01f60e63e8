//! Specifications of `std::time::Duration`.

use std::time::Duration;
use vstd::prelude::*;

verus! {

/// The length of a duration in nanoseconds: the result of `Duration::as_nanos`.
pub uninterp spec fn nanos(duration: Duration) -> u128;

/// Nanoseconds per millisecond.
pub const NANOS_PER_MILLI: u64 = 1_000_000;

/// The length of an optional duration in nanoseconds.
pub open spec fn optional_nanos(duration: Option<Duration>) -> Option<nat> {
    match duration {
        Some(duration) => Some(nanos(duration) as nat),
        None => None,
    }
}

/// `Duration::from_millis`: the duration has the given number of milliseconds.
pub assume_specification[ Duration::from_millis ](millis: u64) -> (duration: Duration)
    ensures
        nanos(duration) == millis * NANOS_PER_MILLI,
;

/// `Duration::from_secs`: the duration has the given number of seconds.
pub assume_specification[ Duration::from_secs ](secs: u64) -> (duration: Duration)
    ensures
        nanos(duration) == secs * 1_000_000_000,
;

/// `Duration::as_millis`: the number of whole milliseconds in the duration.
pub assume_specification[ Duration::as_millis ](duration: &Duration) -> (millis: u128)
    ensures
        millis == nanos(*duration) / NANOS_PER_MILLI as u128,
;

/// `Duration / 2`: half of the duration, rounded down to a nanosecond.
#[verifier::external_body]
pub(crate) fn half(duration: Duration) -> (result: Duration)
    ensures
        nanos(result) == nanos(duration) / 2,
{
    duration / 2
}

/// `Duration::as_nanos`: the number of nanoseconds in the duration.
pub assume_specification[ Duration::as_nanos ](duration: &Duration) -> (result: u128)
    ensures
        result == nanos(*duration),
;

/// The shorter of two durations.
pub(crate) fn shorter(first: Duration, second: Duration) -> (result: Duration)
    ensures
        result == (if nanos(first) <= nanos(second) {
            first
        } else {
            second
        }),
{
    if first.as_nanos() <= second.as_nanos() {
        first
    } else {
        second
    }
}

/// An optional duration is as long as the duration, and there is none without one.
pub proof fn law_optional_nanos(duration: Option<Duration>)
    ensures
        optional_nanos(duration) is Some <==> duration is Some,
        duration is Some ==> optional_nanos(duration)->0 == nanos(duration->0),
        NANOS_PER_MILLI == 1_000_000,
{
}

} // verus!
