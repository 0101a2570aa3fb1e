//! The standard library's clock and durations, as far as the library needs them.

use std::time::{Duration, SystemTime};
use vstd::prelude::*;

verus! {

/// `std::time::SystemTime`, held opaquely.
#[verifier::external_type_specification]
#[verifier::external_body]
pub struct ExSystemTime(SystemTime);

/// What `Duration::from_secs(secs)` returns: the duration of `secs` whole seconds.
pub uninterp spec fn duration_of_secs(secs: u64) -> Duration;

/// Calls `Duration::from_secs`; its result is named by `duration_of_secs`.
#[verifier::external_body]
pub(crate) fn duration_from_secs(secs: u64) -> (d: Duration)
    ensures
        d == duration_of_secs(secs),
{
    Duration::from_secs(secs)
}

/// Calls `SystemTime::now`. The clock's reading is not stated.
#[verifier::external_body]
pub(crate) fn system_now() -> SystemTime {
    SystemTime::now()
}

/// Calls `SystemTime::elapsed` on `t` and converts the result to whole
/// nanoseconds; `None` when the clock now reads earlier than `t`. The value
/// depends on the clock and is not stated.
#[verifier::external_body]
pub(crate) fn elapsed_nanos(t: &SystemTime) -> Option<u128> {
    t.elapsed().ok().map(|d| d.as_nanos())
}

/// Calls `SystemTime::duration_since(UNIX_EPOCH)` on `t` and converts the
/// result to whole seconds; `None` when `t` is before the epoch. The value
/// depends on the clock and is not stated.
#[verifier::external_body]
pub(crate) fn secs_since_epoch(t: &SystemTime) -> Option<u64> {
    t.duration_since(SystemTime::UNIX_EPOCH).ok().map(|d| d.as_secs())
}

} // verus!
