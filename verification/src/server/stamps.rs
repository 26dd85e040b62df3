//! Fresh ids and the current time.
use vstd::prelude::*;
use crate::clock::{duration_secs, duration_subsec_nanos, elapsed_since_epoch, system_now};

verus! {

/// A fresh random id: `uuid::Uuid::new_v4()` written out by `to_string`, which
/// gives the hyphenated form. Claimed: the id is 36 characters long (32 hex
/// digits and 4 hyphens). Which id comes out rests on chance and is left open.
#[verifier::external_body]
pub(crate) fn new_id() -> (id: String)
    ensures
        id@.len() == 36,
{
    uuid::Uuid::new_v4().to_string()
}

/// The Unix time in seconds of `secs` seconds and `nanos` nanoseconds after
/// the epoch, as chrono reads it: `chrono::DateTime::from_timestamp` then
/// `timestamp()`; `None` where chrono cannot hold that time. Claimed: a time
/// that chrono holds gives back its seconds (chrono documents that
/// `from_timestamp` and `timestamp` round-trip).
#[verifier::external_body]
fn chrono_timestamp(secs: i64, nanos: u32) -> (r: Option<i64>)
    ensures
        r matches Some(t) ==> t == secs,
{
    chrono::DateTime::from_timestamp(secs, nanos).map(|t| t.timestamp())
}

/// The current Unix time in seconds, read as `chrono::Utc::now` reads it (the
/// system clock's time since the epoch, then `DateTime::from_timestamp`) and
/// given by `timestamp()`, but with `None` where `Utc::now` would panic: a
/// clock before the Unix epoch, or a reading chrono cannot hold. Nothing is
/// claimed of the value: it comes from the clock.
pub(crate) fn now_timestamp() -> Option<i64> {
    let now = system_now();
    match elapsed_since_epoch(&now) {
        None => None,
        Some(elapsed) => {
            let secs = duration_secs(&elapsed);
            chrono_timestamp(secs as i64, duration_subsec_nanos(&elapsed))
        },
    }
}

} // verus!
