//! Clocks.

use std::time::{Duration, SystemTime, SystemTimeError};

use vstd::prelude::*;

verus! {

/// `std::time::SystemTime`: a reading of the system's clock, of which nothing is seen but its
/// [`system_time_nanos`].
#[verifier::external_type_specification]
#[verifier::external_body]
pub struct ExSystemTime(std::time::SystemTime);

/// `std::time::SystemTimeError`: says that one reading of the clock comes before another.
#[verifier::external_type_specification]
#[verifier::external_body]
pub struct ExSystemTimeError(std::time::SystemTimeError);

/// The length of a time span, in nanoseconds.
pub uninterp spec fn duration_nanos(d: Duration) -> nat;

/// A point of the system's clock, in nanoseconds after the Unix epoch.
pub uninterp spec fn system_time_nanos(t: SystemTime) -> int;

/// `Duration::from_secs`: a span of that many whole seconds.
pub assume_specification[ Duration::from_secs ](secs: u64) -> (d: Duration)
    ensures
        duration_nanos(d) == secs * 1_000_000_000,
;

/// `Duration::as_nanos`: the whole span in nanoseconds.
pub assume_specification[ Duration::as_nanos ](d: &Duration) -> (res: u128)
    ensures
        res == duration_nanos(*d),
;

/// `Duration::as_millis`: the whole milliseconds of a span.
pub assume_specification[ Duration::as_millis ](d: &Duration) -> (res: u128)
    ensures
        res == duration_nanos(*d) / 1_000_000,
;

/// `SystemTime::now`: whatever the system's clock reads.
pub assume_specification[ SystemTime::now ]() -> SystemTime
;

/// `SystemTime::duration_since`: the time that passed since `earlier`, which is an error where
/// the clock reads less than that.
pub assume_specification[ SystemTime::duration_since ](t: &SystemTime, earlier: SystemTime) -> (res: Result<
    Duration,
    SystemTimeError,
>)
    ensures
        res is Ok <==> system_time_nanos(earlier) <= system_time_nanos(*t),
        res is Ok ==> duration_nanos(res->Ok_0) == system_time_nanos(*t) - system_time_nanos(earlier),
;

/// `SystemTime::UNIX_EPOCH`: the start of the scale.
#[verifier::external_body]
fn unix_epoch() -> (res: SystemTime)
    ensures
        system_time_nanos(res) == 0,
{
    SystemTime::UNIX_EPOCH
}

/// The reading of a clock that counts milliseconds in 32 bits, `t` after the Unix epoch.
pub open spec fn millis_at(t: SystemTime) -> u32 {
    ((system_time_nanos(t) / 1_000_000) % 0x1_0000_0000) as u32
}

/// What a program that reads the clock at `t` makes of it: the milliseconds from the Unix epoch to
/// `t`, in 32 bits; none if `t` comes before it.
pub open spec fn reading(t: SystemTime) -> Option<u32> {
    if system_time_nanos(t) < 0 {
        None
    } else {
        Some(millis_at(t))
    }
}

/// `m` is what a reading of the system's clock came to.
pub open spec fn is_reading(m: Option<u32>) -> bool {
    exists|t: SystemTime| #[trigger] reading(t) == m && call_ensures(SystemTime::now, (), t)
}

/// The milliseconds from the Unix epoch to `t`, in 32 bits; none if `t` comes before it.
pub fn millis_since_epoch(t: SystemTime) -> (res: Option<u32>)
    ensures
        res == reading(t),
{
    match t.duration_since(unix_epoch()) {
        Ok(since_the_epoch) => {
            let millis: u128 = since_the_epoch.as_millis();
            assert(millis as u32 == millis % 0x1_0000_0000) by (bit_vector);
            Some(#[verifier::truncate] (millis as u32))
        },
        Err(_) => None,
    }
}

/// The time in milliseconds, in 32 bits, by the system's clock; none if that clock reads a time
/// before the Unix epoch.
pub fn now_millis() -> (res: Option<u32>)
    ensures
        is_reading(res),
        res is None ==> exists|t: SystemTime| #[trigger] system_time_nanos(t) < 0,
{
    let start = SystemTime::now();
    let res = millis_since_epoch(start);
    assert(reading(start) == res);
    res
}

} // verus!
