//! The time at which threads are archived.

use crate::error::ArchiveError;
use std::time::{Duration, SystemTime, SystemTimeError};
use vstd::prelude::*;

verus! {

/// `std::time::SystemTime`, an opaque point in time.
#[verifier::external_type_specification]
#[verifier::external_body]
pub struct ExSystemTime(std::time::SystemTime);

/// `std::time::SystemTimeError`, which says that a point in time lies before
/// another.
#[verifier::external_type_specification]
#[verifier::external_body]
pub struct ExSystemTimeError(std::time::SystemTimeError);

/// The nanoseconds from the Unix epoch to `time`, negative before it.
pub uninterp spec fn epoch_nanos(time: std::time::SystemTime) -> int;

/// The nanoseconds that `duration` lasts.
pub uninterp spec fn duration_nanos(duration: std::time::Duration) -> nat;

/// The message that the `Display` of `error` writes.
pub uninterp spec fn time_error_text(error: std::time::SystemTimeError) -> Seq<char>;

/// `SystemTime::now`: the time on the system clock. Nothing is claimed of it.
pub assume_specification[ std::time::SystemTime::now ]() -> SystemTime
;

/// `SystemTime::duration_since`: the time from `earlier` to `time`, or an error
/// if `earlier` is the later one.
pub assume_specification[ std::time::SystemTime::duration_since ](
    time: &SystemTime,
    earlier: SystemTime,
) -> (r: Result<Duration, SystemTimeError>)
    ensures
        match r {
            Ok(duration) => duration_nanos(duration) == epoch_nanos(*time) - epoch_nanos(earlier),
            Err(_) => epoch_nanos(*time) < epoch_nanos(earlier),
        },
;

/// `Duration::as_secs`: the whole seconds of a duration.
pub assume_specification[ std::time::Duration::as_secs ](duration: &Duration) -> (r: u64)
    ensures
        r == duration_nanos(*duration) / 1_000_000_000,
;

/// The constant `std::time::UNIX_EPOCH`.
#[verifier::external_body]
fn unix_epoch() -> (r: SystemTime)
    ensures
        epoch_nanos(r) == 0,
{
    std::time::UNIX_EPOCH
}

/// Calls the `Display` of `SystemTimeError`. What it writes is a matter of the
/// error alone, and is not described further.
#[verifier::external_body]
fn error_message(error: &SystemTimeError) -> (r: String)
    ensures
        r@ == time_error_text(*error),
{
    error.to_string()
}

/// The timestamp for so many whole seconds since the Unix epoch. Seconds that no
/// timestamp can hold wrap around.
pub fn timestamp(seconds: u64) -> (r: i64)
    ensures
        r == seconds as i64,
        seconds <= i64::MAX ==> r == seconds,
{
    #[verifier::truncate]
    (seconds as i64)
}

/// Whether `r` is the timestamp for a clock that shows `nanos` nanoseconds since
/// the Unix epoch. A clock that is set before it has none.
pub open spec fn is_timestamp(nanos: int, r: Result<i64, ArchiveError>) -> bool {
    match r {
        Ok(time) => nanos >= 0 && time == (nanos / 1_000_000_000) as u64 as i64,
        Err(error) => nanos < 0 && error is ClockBeforeEpoch,
    }
}

/// Whether `message` is what `SystemTime::duration_since` tells of a time `now`
/// before the Unix epoch.
pub open spec fn is_early_clock_message(now: SystemTime, message: Seq<char>) -> bool {
    exists|epoch: SystemTime, error: SystemTimeError|
        {
            &&& epoch_nanos(epoch) == 0
            &&& #[trigger] call_ensures(
                SystemTime::duration_since,
                (&now, epoch),
                Err::<Duration, SystemTimeError>(error),
            )
            &&& message == time_error_text(error)
        }
}

/// Whether `r` is the timestamp for the time `now`, or the failure of a clock
/// that is set before the Unix epoch.
pub open spec fn tells_time(now: SystemTime, r: Result<i64, ArchiveError>) -> bool {
    &&& is_timestamp(epoch_nanos(now), r)
    &&& r matches Err(ArchiveError::ClockBeforeEpoch { cause }) ==> is_early_clock_message(
        now,
        cause@,
    )
}

/// The timestamp for the time `now`.
pub fn timestamp_at(now: SystemTime) -> (r: Result<i64, ArchiveError>)
    ensures
        tells_time(now, r),
{
    match now.duration_since(unix_epoch()) {
        Ok(duration) => Ok(timestamp(duration.as_secs())),
        Err(error) => Err(ArchiveError::ClockBeforeEpoch { cause: error_message(&error) }),
    }
}

/// The time on the system clock, in whole seconds since the Unix epoch. Fails
/// only on a clock that is set before it.
pub fn unix_timestamp_seconds() -> (r: Result<i64, ArchiveError>)
    ensures
        exists|now: SystemTime|
            call_ensures(SystemTime::now, (), now) && #[trigger] tells_time(now, r),
{
    let now: SystemTime = SystemTime::now();
    timestamp_at(now)
}

/// A timestamp counts the whole seconds that have passed since the Unix epoch. Only
/// a time before it has none. (A number of seconds that no timestamp holds wraps
/// around: such a time is not meant here.)
pub proof fn law_timestamp_counts_seconds(now: SystemTime, r: Result<i64, ArchiveError>)
    requires
        call_ensures(timestamp_at, (now,), r),
        epoch_nanos(now) < 0x8000_0000_0000_0000 * 1_000_000_000,
    ensures
        r is Ok <==> epoch_nanos(now) >= 0,
        r matches Ok(time) ==> 0 <= time && time * 1_000_000_000 <= epoch_nanos(now) < (time + 1)
            * 1_000_000_000,
        r matches Err(error) ==> error is ClockBeforeEpoch,
{
    let nanos = epoch_nanos(now);
    if nanos >= 0 {
        let seconds = nanos / 1_000_000_000;
        assert(0 <= seconds < 0x8000_0000_0000_0000);
        let whole = seconds as u64;
        assert(whole == seconds);
        assert(whole as i64 == whole) by (bit_vector)
            requires
                whole < 0x8000_0000_0000_0000u64,
        ;
    }
}

/// The timestamp of a run is that of a time that the system clock showed: it
/// counts the whole seconds since the Unix epoch.
pub proof fn law_present_time_in_seconds(r: Result<i64, ArchiveError>)
    requires
        call_ensures(unix_timestamp_seconds, (), r),
    ensures
        exists|now: SystemTime|
            {
                &&& call_ensures(SystemTime::now, (), now)
                &&& r is Ok <==> #[trigger] epoch_nanos(now) >= 0
                &&& epoch_nanos(now) < 0x8000_0000_0000_0000 * 1_000_000_000 ==> (r matches Ok(time)
                    ==> time * 1_000_000_000 <= epoch_nanos(now) < (time + 1) * 1_000_000_000)
            },
{
    let now = choose|now: SystemTime|
        call_ensures(SystemTime::now, (), now) && #[trigger] tells_time(now, r);
    let nanos = epoch_nanos(now);
    if 0 <= nanos < 0x8000_0000_0000_0000 * 1_000_000_000 {
        let whole = (nanos / 1_000_000_000) as u64;
        assert(whole == nanos / 1_000_000_000);
        assert(whole as i64 == whole) by (bit_vector)
            requires
                whole < 0x8000_0000_0000_0000u64,
        ;
    }
}

/// Seconds that a timestamp can hold are its value.
pub proof fn law_timestamp_is_the_seconds(seconds: u64, r: i64)
    requires
        call_ensures(timestamp, (seconds,), r),
    ensures
        seconds <= i64::MAX ==> r == seconds,
        seconds > i64::MAX ==> r == seconds - 0x1_0000_0000_0000_0000,
{
    assert(seconds > 0x7fff_ffff_ffff_ffffu64 ==> (seconds as i64) as int == seconds as int
        - 0x1_0000_0000_0000_0000) by (bit_vector);
}

} // verus!
