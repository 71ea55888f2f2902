//! The calls this library makes into code it does not verify: the BLAKE3 hash,
//! the system clock and the random-number generator. Each wrapper is trusted;
//! its doc comment says what is assumed of it. The readings of the clock as
//! Unix times are verified.

use vstd::prelude::*;

verus! {

#[verifier::external_type_specification]
#[verifier::external_body]
pub struct ExSystemTime(std::time::SystemTime);

#[verifier::external_type_specification]
#[verifier::external_body]
pub struct ExSystemTimeError(std::time::SystemTimeError);

/// The 32-byte BLAKE3 digest of a byte string.
pub uninterp spec fn blake3_digest(data: Seq<u8>) -> Seq<u8>;

/// Calls `blake3::hash`. Assumed: the 32 bytes returned are the BLAKE3 digest of
/// `data`, a function of `data` alone (named `blake3_digest`).
#[verifier::external_body]
pub(crate) fn hash_blake3(data: &[u8]) -> (digest: [u8; 32])
    ensures
        digest@ == blake3_digest(data@),
{
    blake3::hash(data).into()
}

/// Calls `std::time::SystemTime::now`. Nothing is assumed of the instant returned.
#[verifier::external_body]
pub(crate) fn system_time_now() -> std::time::SystemTime {
    std::time::SystemTime::now()
}

/// Calls `std::time::SystemTime::duration_since` against the Unix epoch.
/// Nothing is assumed of the result: it depends on the clock.
#[verifier::external_body]
pub(crate) fn duration_since_unix_epoch(
    time: &std::time::SystemTime,
) -> Result<core::time::Duration, std::time::SystemTimeError> {
    time.duration_since(std::time::UNIX_EPOCH)
}

/// Calls `std::time::Duration::as_secs`. Nothing is assumed of the result.
#[verifier::external_body]
pub(crate) fn duration_as_secs(duration: &core::time::Duration) -> u64 {
    duration.as_secs()
}

/// Calls `std::time::Duration::subsec_nanos`. Nothing is assumed of the result.
#[verifier::external_body]
pub(crate) fn duration_subsec_nanos(duration: &core::time::Duration) -> u32 {
    duration.subsec_nanos()
}

/// Calls `std::time::SystemTimeError::duration`: how far the clock reading lies
/// before the instant it was compared with. Nothing is assumed of the result.
#[verifier::external_body]
pub(crate) fn system_time_error_duration(error: &std::time::SystemTimeError) -> core::time::Duration {
    error.duration()
}

/// Calls `rand::random::<u64>`. Nothing is assumed of the value: it is random.
#[verifier::external_body]
pub(crate) fn random_u64() -> u64 {
    rand::random::<u64>()
}

/// Seconds since the Unix epoch by the system clock, or `None` when the clock
/// reads earlier than the epoch.
pub fn unix_now_secs() -> Option<u64> {
    let now = system_time_now();
    match duration_since_unix_epoch(&now) {
        Ok(duration) => Some(duration_as_secs(&duration)),
        Err(_) => None,
    }
}


/// Unix timestamp in whole seconds, rounded down, of an instant `secs`
/// seconds and `subsec_nanos` nanoseconds after the epoch (or before it, with
/// `before_epoch`), clamped to the range of an `i64`.
pub open spec fn unix_timestamp_of(before_epoch: bool, secs: u64, subsec_nanos: u32) -> i64 {
    if !before_epoch {
        if secs <= i64::MAX { secs as i64 } else { i64::MAX }
    } else {
        let t: int = if subsec_nanos == 0 { -secs } else { -secs - 1 };
        if t >= i64::MIN { t as i64 } else { i64::MIN }
    }
}

/// Unix timestamp of an instant given by its distance from the epoch; see
/// `unix_timestamp_of`.
pub fn unix_timestamp_from(before_epoch: bool, secs: u64, subsec_nanos: u32) -> (t: i64)
    ensures
        t == unix_timestamp_of(before_epoch, secs, subsec_nanos),
{
    if !before_epoch {
        if secs <= 9223372036854775807u64 {
            secs as i64
        } else {
            i64::MAX
        }
    } else if secs > 9223372036854775807u64 {
        i64::MIN
    } else if subsec_nanos == 0 {
        -(secs as i64)
    } else if secs == 9223372036854775807u64 {
        i64::MIN
    } else {
        -(secs as i64) - 1
    }
}

/// Unix timestamp (seconds, rounded down) of the system clock's current
/// reading, before the epoch as well as after it, clamped to an `i64`.
pub fn unix_timestamp_now() -> i64 {
    let now = system_time_now();
    match duration_since_unix_epoch(&now) {
        Ok(after) => unix_timestamp_from(false, duration_as_secs(&after), duration_subsec_nanos(&after)),
        Err(error) => {
            let before = system_time_error_duration(&error);
            unix_timestamp_from(true, duration_as_secs(&before), duration_subsec_nanos(&before))
        },
    }
}

} // verus!
