//! The points where the library meets the clocks of the standard library.
use std::time::{Duration, Instant, SystemTime, UNIX_EPOCH};
use vstd::prelude::*;

verus! {

/// `std::time::Instant`, carried through as it is.
#[verifier::external_type_specification]
#[verifier::external_body]
pub struct ExInstant(std::time::Instant);

/// `std::time::SystemTime`, carried through as it is.
#[verifier::external_type_specification]
#[verifier::external_body]
pub struct ExSystemTime(std::time::SystemTime);

/// The point in time `nanos` nanoseconds after the Unix epoch.
pub uninterp spec fn after_epoch(nanos: u64) -> SystemTime;

/// Calls `<SystemTime as Add<Duration>>::add` on `UNIX_EPOCH` and the number of nanoseconds, handed
/// over as a `Duration`: the result is a function of that number alone. It does not panic, as a
/// time is representable for every 64-bit number of nanoseconds.
#[verifier::external_body]
pub(crate) fn epoch_plus_nanos(nanos: u64) -> (t: SystemTime)
    ensures
        t == after_epoch(nanos),
{
    UNIX_EPOCH + Duration::from_nanos(nanos)
}

/// Calls `Instant::now`: nothing is claimed of the reading.
#[verifier::external_body]
pub(crate) fn instant_now() -> (t: Instant) {
    Instant::now()
}

/// Whether a call of `instant_now` can read `t`.
pub closed spec fn reads_instant(t: Instant) -> bool {
    call_ensures(instant_now, (), t)
}

/// The instant that the clock reads.
pub(crate) fn current_instant() -> (t: Instant)
    ensures
        reads_instant(t),
{
    let read = instant_now;
    read()
}

/// Calls `Instant::elapsed`, whose reading is handed back in whole microseconds: nothing is
/// claimed of it.
#[verifier::external_body]
pub(crate) fn micros_since(start: &Instant) -> (micros: u128) {
    start.elapsed().as_micros()
}

/// Whether a call of `micros_since` for `start` can read `micros`.
pub closed spec fn reads_since(start: Instant, micros: u128) -> bool {
    call_ensures(micros_since, (&start,), micros)
}

/// The microseconds that the clock reads since `start`.
pub(crate) fn elapsed_micros(start: &Instant) -> (micros: u128)
    ensures
        reads_since(*start, micros),
{
    let read = micros_since;
    read(start)
}

/// Calls `SystemTime::now`: nothing is claimed of the reading.
#[verifier::external_body]
pub(crate) fn system_time_now() -> (t: SystemTime) {
    SystemTime::now()
}

/// Whether a call of `system_time_now` can read `t`.
pub closed spec fn reads_time(t: SystemTime) -> bool {
    call_ensures(system_time_now, (), t)
}

/// The time that the clock reads.
pub(crate) fn current_time() -> (t: SystemTime)
    ensures
        reads_time(t),
{
    let read = system_time_now;
    read()
}

} // verus!
