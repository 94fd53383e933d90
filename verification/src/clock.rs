//! The wall clock, in whole seconds since the Unix epoch, as the
//! database's `created_at`/`updated_at` columns store it.
use vstd::prelude::*;
use std::time::{Duration, SystemTime};

verus! {

#[verifier::external_type_specification]
#[verifier::external_body]
pub struct ExSystemTime(SystemTime);

/// `SystemTime::now`: the current wall-clock time. Nothing is claimed of it.
#[verifier::external_body]
fn system_now() -> SystemTime {
    SystemTime::now()
}

/// `SystemTime::duration_since(UNIX_EPOCH)`: the time elapsed since the
/// epoch, `None` for a time before it. Nothing more is claimed of it.
#[verifier::external_body]
fn since_unix_epoch(t: &SystemTime) -> Option<Duration> {
    t.duration_since(std::time::UNIX_EPOCH).ok()
}

/// `Duration::as_secs`: the whole seconds of a duration. Nothing is
/// claimed of it.
#[verifier::external_body]
fn whole_seconds(d: &Duration) -> u64 {
    d.as_secs()
}

/// The value stored in a `created_at`/`updated_at` column for the time
/// elapsed since the Unix epoch, in whole seconds (`None` for a clock set
/// before the epoch): the seconds converted to the signed column type with
/// `as`.
pub fn column_seconds(elapsed: Option<u64>) -> (r: Option<i64>)
    ensures
        r == match elapsed {
            Some(s) => Some(s as i64),
            None => None::<i64>,
        },
{
    match elapsed {
        Some(s) => Some(s as i64),
        None => None,
    }
}

/// The current time in whole seconds since the Unix epoch, as
/// [`column_seconds`] stores it; `None` when the clock reads a time before
/// the epoch (where the caller stops, as a program cannot stamp such a
/// time). The clock's reading itself is not claimed: the seconds come
/// from `SystemTime::now`, and all that is stated of them is in
/// [`column_seconds`].
pub fn unix_now() -> Option<i64> {
    let now: SystemTime = system_now();
    let elapsed: Option<u64> = match since_unix_epoch(&now) {
        Some(d) => Some(whole_seconds(&d)),
        None => None,
    };
    column_seconds(elapsed)
}

} // verus!
