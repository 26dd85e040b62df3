//! The system clock, read through std.
use vstd::prelude::*;

verus! {

#[verifier::external_type_specification]
#[verifier::external_body]
pub struct ExSystemTime(std::time::SystemTime);

/// Reads the system clock (`std::time::SystemTime::now`). Nothing is claimed of
/// the reading.
#[verifier::external_body]
pub(crate) fn system_now() -> std::time::SystemTime {
    std::time::SystemTime::now()
}

/// The time from the Unix epoch to `t` (`SystemTime::duration_since` with
/// `UNIX_EPOCH`), or `None` where `duration_since` fails, which it does for a
/// time before the epoch. Nothing is claimed of the value: the time is opaque here.
#[verifier::external_body]
pub(crate) fn elapsed_since_epoch(t: &std::time::SystemTime) -> Option<std::time::Duration> {
    t.duration_since(std::time::UNIX_EPOCH).ok()
}

/// The whole length of a duration in nanoseconds (`Duration::as_nanos`).
/// Nothing is claimed: the duration is opaque here.
#[verifier::external_body]
pub(crate) fn duration_nanos(d: &std::time::Duration) -> u128 {
    d.as_nanos()
}

/// The whole seconds of a duration (`Duration::as_secs`). Nothing is claimed:
/// the duration is opaque here.
#[verifier::external_body]
pub(crate) fn duration_secs(d: &std::time::Duration) -> u64 {
    d.as_secs()
}

/// The nanoseconds of a duration past its whole seconds
/// (`Duration::subsec_nanos`). Claimed: fewer than a second's worth, as the
/// documentation says.
#[verifier::external_body]
pub(crate) fn duration_subsec_nanos(d: &std::time::Duration) -> (n: u32)
    ensures
        n < 1_000_000_000,
{
    d.subsec_nanos()
}

} // verus!
