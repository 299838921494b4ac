//! The clock the framework reads, and the channel types actors communicate over.
//!
//! Instants and durations are counted in nanoseconds.
use vstd::prelude::*;

verus! {

/// An instant of the system clock (`std::time::SystemTime`)
#[verifier::external_type_specification]
#[verifier::external_body]
pub struct ExSystemTime(std::time::SystemTime);

/// The error of reading an instant before the Unix epoch
/// (`std::time::SystemTimeError`)
#[verifier::external_type_specification]
#[verifier::external_body]
pub struct ExSystemTimeError(std::time::SystemTimeError);

/// The system clock's current instant (`std::time::SystemTime::now`). Nothing
/// is stated of it: it depends on when it is read.
#[verifier::external_body]
fn system_time_now() -> std::time::SystemTime {
    std::time::SystemTime::now()
}

/// The time from the Unix epoch to `t` (`SystemTime::duration_since` with
/// `UNIX_EPOCH`), an error when `t` is earlier. Nothing is stated of it: the
/// instant is opaque here.
#[verifier::external_body]
fn since_unix_epoch(t: &std::time::SystemTime) -> Result<core::time::Duration, std::time::SystemTimeError> {
    t.duration_since(std::time::UNIX_EPOCH)
}

/// The whole nanoseconds of a duration (`Duration::as_nanos`). Nothing is
/// stated of it: the duration is opaque here.
#[verifier::external_body]
fn duration_nanos(d: &core::time::Duration) -> u128 {
    d.as_nanos()
}

/// Whether `r` is a reading of the system clock in nanoseconds since the Unix
/// epoch. Only `now_nanos` establishes it: outside this module it is known of
/// a value exactly when `now_nanos` returned that value, so a value scaled,
/// shifted or made up is not known to be a reading.
pub closed spec fn spec_clock_reading(r: u64) -> bool {
    true
}

/// The current time, in nanoseconds since the Unix epoch, read from the
/// system clock: a clock set before the epoch reads as 0, and a time past the
/// largest `u64` reads as that. Nothing more is stated of the value: it
/// depends on when it is read.
pub fn now_nanos() -> (r: u64)
    ensures
        spec_clock_reading(r),
{
    match since_unix_epoch(&system_time_now()) {
        Ok(d) => {
            let n = duration_nanos(&d);
            if n > u64::MAX as u128 {
                u64::MAX
            } else {
                n as u64
            }
        },
        Err(_) => 0,
    }
}

/// The concurrent hash map of the `dashmap` crate, which holds the shared
/// tables of process groups and of the actor registry
#[verifier::external_type_specification]
#[verifier::external_body]
#[verifier::reject_recursive_types(K)]
#[verifier::reject_recursive_types(V)]
#[verifier::reject_recursive_types(S)]
pub struct ExDashMap<K, V, S>(dashmap::DashMap<K, V, S>);

} // verus!
