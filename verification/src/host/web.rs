//! Decisions of the web host.

use std::time::Duration;
use vstd::prelude::*;

use crate::error::{Error, ErrorKind};
use crate::time::{nanos, NANOS_PER_MILLI};

verus! {

/// How often it is tried to use an interface that is in use.
pub const GUARD_RETRIES: u32 = 100;

/// Time in milliseconds between two tries to use an interface.
pub const GUARD_RETRY_MILLIS: u64 = 50;

/// The number of milliseconds for a timer of the browser: whole milliseconds, capped to
/// what the timer takes.
pub fn sleep_millis(duration: Duration) -> (millis: i32)
    ensures
        millis == (if nanos(duration) / NANOS_PER_MILLI as u128 <= i32::MAX {
            (nanos(duration) / NANOS_PER_MILLI as u128) as int
        } else {
            i32::MAX as int
        }),
{
    let millis: u128 = duration.as_millis();
    if millis <= i32::MAX as u128 {
        millis as i32
    } else {
        i32::MAX
    }
}

/// Decides whether to try again to use an interface after an error. The result is the
/// number of remaining retries.
pub fn retry_guard(err: &Error, remaining: u32) -> (retry: Option<u32>)
    ensures
        retry == (if err.spec_kind() == ErrorKind::ResourceBusy && remaining > 0 {
            Some((remaining - 1) as u32)
        } else {
            None
        }),
{
    if err.kind() == ErrorKind::ResourceBusy && remaining > 0 {
        Some(remaining - 1)
    } else {
        None
    }
}

/// An interface that is in use is tried for five seconds.
pub proof fn law_guard_retries()
    ensures
        GUARD_RETRIES * GUARD_RETRY_MILLIS == 5000,
        GUARD_RETRY_MILLIS == 50,
{
}

} // verus!
