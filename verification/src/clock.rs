//! Reading the wall clock.
use std::time::Duration;
use std::time::SystemTime;
use vstd::prelude::*;

verus! {

#[verifier::external_type_specification]
#[verifier::external_body]
pub struct ExSystemTime(SystemTime);

/// Reads the wall clock (`SystemTime::now`).
#[verifier::external_body]
pub(crate) fn clock_now() -> SystemTime {
    SystemTime::now()
}

/// The time elapsed from the Unix epoch to `t` (`SystemTime::duration_since`);
/// `None` where `t` lies before the epoch.
#[verifier::external_body]
pub(crate) fn since_unix_epoch(t: &SystemTime) -> Option<Duration> {
    t.duration_since(std::time::UNIX_EPOCH).ok()
}

/// The whole seconds of a duration (`Duration::as_secs`).
#[verifier::external_body]
pub(crate) fn whole_secs(d: &Duration) -> u64 {
    d.as_secs()
}

/// The whole nanoseconds of a duration (`Duration::as_nanos`).
#[verifier::external_body]
pub(crate) fn whole_nanos(d: &Duration) -> u128 {
    d.as_nanos()
}

} // verus!
