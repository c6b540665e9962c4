//! The system clock in whole milliseconds since the Unix epoch.

use std::time::{Duration, SystemTime, SystemTimeError, UNIX_EPOCH};
use vstd::prelude::*;

verus! {

/// A point in time of the system clock.
#[verifier::external_type_specification]
#[verifier::external_body]
pub struct ExSystemTime(SystemTime);

/// What `SystemTime::duration_since` answers when the other time is later.
#[verifier::external_type_specification]
#[verifier::external_body]
pub struct ExSystemTimeError(SystemTimeError);

/// `SystemTime::now` reads the system clock. Nothing is claimed of the time
/// that it returns.
pub assume_specification[ SystemTime::now ]() -> SystemTime;

/// `Duration::as_millis` gives the length of a span in whole milliseconds. The
/// span is opaque here, so nothing is claimed of the number.
pub assume_specification[ Duration::as_millis ](span: &Duration) -> u128;

/// `SystemTime::duration_since`, from the Unix epoch to `now`. Nothing is
/// claimed of the span, nor of when `now` counts as earlier than the epoch.
#[verifier::external_body]
pub(crate) fn since_epoch(now: &SystemTime) -> (r: Result<Duration, SystemTimeError>) {
    now.duration_since(UNIX_EPOCH)
}

/// Whether one reading of the clock can give `millis`: the whole milliseconds
/// from the epoch to now, or `None` if now is earlier than the epoch.
pub closed spec fn clock_reads(millis: Option<u128>) -> bool {
    exists|now: SystemTime, since: Result<Duration, SystemTimeError>|
        {
            &&& call_ensures(SystemTime::now, (), now)
            &&& #[trigger] call_ensures(since_epoch, (&now,), since)
            &&& match (since, millis) {
                (Ok(span), Some(ms)) => call_ensures(Duration::as_millis, (&span,), ms),
                (Err(_), None) => true,
                _ => false,
            }
        }
}

/// One reading of the clock.
pub fn read_clock() -> (millis: Option<u128>)
    ensures
        clock_reads(millis),
{
    let now = SystemTime::now();
    let since = since_epoch(&now);
    match since {
        Ok(span) => {
            let ms: u128 = span.as_millis();
            proof {
                assert(call_ensures(since_epoch, (&now,), since));
            }
            Some(ms)
        },
        Err(_) => {
            proof {
                assert(call_ensures(since_epoch, (&now,), since));
            }
            None
        },
    }
}

/// A reading as an unsigned 64-bit number: its low 64 bits, or 0 for a time
/// before the epoch.
pub open spec fn unsigned_millis(reading: Option<u128>) -> int {
    match reading {
        Some(ms) => (ms as int) % 0x1_0000_0000_0000_0000,
        None => 0,
    }
}

/// A reading as a signed 64-bit number: its low 64 bits in two's complement,
/// or 0 for a time before the epoch.
pub open spec fn signed_millis(reading: Option<u128>) -> int {
    let low = unsigned_millis(reading);
    if low < 0x8000_0000_0000_0000 {
        low
    } else {
        low - 0x1_0000_0000_0000_0000
    }
}

/// A reading as an unsigned 64-bit number.
pub fn to_unsigned(reading: Option<u128>) -> (r: u64)
    ensures
        r == unsigned_millis(reading),
{
    match reading {
        Some(ms) => {
            proof {
                assert(#[verifier::truncate] (ms as u64) == ms % 0x1_0000_0000_0000_0000) by (bit_vector);
            }
            #[verifier::truncate]
            (ms as u64)
        },
        None => 0,
    }
}

/// A reading as a signed 64-bit number.
pub fn to_signed(reading: Option<u128>) -> (r: i64)
    ensures
        r == signed_millis(reading),
{
    let low: u64 = to_unsigned(reading);
    proof {
        assert(low < 0x8000_0000_0000_0000 ==> #[verifier::truncate] (low as i64) == low) by (bit_vector);
        assert(low >= 0x8000_0000_0000_0000 ==> #[verifier::truncate] (low as i64) == low - 0x1_0000_0000_0000_0000) by (bit_vector);
    }
    #[verifier::truncate]
    (low as i64)
}

/// The current time in milliseconds since the Unix epoch, as the wire
/// messages carry it.
pub fn now_ms() -> (r: u64)
    ensures
        exists|reading: Option<u128>| clock_reads(reading) && r == unsigned_millis(reading),
{
    to_unsigned(read_clock())
}

/// A reading comes from one look at the system clock: from the span between the
/// epoch and the time that it showed.
pub(crate) proof fn law_reading_comes_from_the_clock(millis: Option<u128>)
    requires
        clock_reads(millis),
    ensures
        exists|now: SystemTime, since: Result<Duration, SystemTimeError>|
            {
                &&& call_ensures(SystemTime::now, (), now)
                &&& #[trigger] call_ensures(since_epoch, (&now,), since)
                &&& millis is Some <==> since is Ok
                &&& millis matches Some(ms) ==> call_ensures(Duration::as_millis, (&since->Ok_0,), ms)
            },
{
}

/// A reading that fits is kept as it is, one that does not wraps around, and a
/// time before the epoch counts as the epoch.
pub proof fn law_readings_are_kept_modulo_64_bits(ms: u128)
    ensures
        unsigned_millis(None) == 0,
        signed_millis(None) == 0,
        ms < 0x1_0000_0000_0000_0000 ==> unsigned_millis(Some(ms)) == ms,
        ms >= 0x1_0000_0000_0000_0000 ==> unsigned_millis(Some(ms)) == unsigned_millis(
            Some((ms - 0x1_0000_0000_0000_0000) as u128),
        ),
        -0x8000_0000_0000_0000 <= signed_millis(Some(ms)) < 0x8000_0000_0000_0000,
        signed_millis(Some(ms)) == unsigned_millis(Some(ms)) || signed_millis(Some(ms))
            == unsigned_millis(Some(ms)) - 0x1_0000_0000_0000_0000,
{
}

} // verus!
