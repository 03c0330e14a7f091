//! Readings of the system clocks. What they read depends on the moment of the call,
//! so the library states nothing of a reading beyond what every reading satisfies.
use vstd::prelude::*;
use std::time::{Duration, Instant, SystemTime};

verus! {

/// The wall-clock time, opaque to proofs.
#[verifier::external_type_specification]
#[verifier::external_body]
pub struct ExSystemTime(SystemTime);

/// A reading of the monotonic clock, opaque to proofs.
#[verifier::external_type_specification]
#[verifier::external_body]
pub struct ExInstant(Instant);

/// The current wall-clock time (`SystemTime::now`).
#[verifier::external_body]
pub(crate) fn system_time_now() -> (r: SystemTime) {
    SystemTime::now()
}

/// The time from the Unix epoch to `t` (`SystemTime::duration_since` with
/// `UNIX_EPOCH`), or `None` when `t` lies before the epoch.
#[verifier::external_body]
pub(crate) fn time_since_epoch(t: &SystemTime) -> (r: Option<Duration>) {
    t.duration_since(std::time::UNIX_EPOCH).ok()
}

/// The whole seconds of a duration (`Duration::as_secs`).
#[verifier::external_body]
pub(crate) fn duration_secs(d: &Duration) -> (r: u64) {
    d.as_secs()
}

/// The milliseconds of the last, partial second of a duration
/// (`Duration::subsec_millis`), which its documentation bounds below one thousand.
#[verifier::external_body]
pub(crate) fn duration_subsec_millis(d: &Duration) -> (r: u32)
    ensures
        r < 1000,
{
    d.subsec_millis()
}

/// The current reading of the monotonic clock (`Instant::now`).
#[verifier::external_body]
pub(crate) fn instant_now() -> (r: Instant) {
    Instant::now()
}

/// The time passed since `t` (`Instant::elapsed`).
#[verifier::external_body]
pub(crate) fn instant_elapsed(t: &Instant) -> (r: Duration) {
    t.elapsed()
}

} // verus!
