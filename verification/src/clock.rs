//! The wall clock, read once per call, and timestamps read from text.

use vstd::prelude::*;

verus! {

/// Reads `SystemTime::now()` and returns its distance from the Unix epoch
/// in nanoseconds (`Duration::as_nanos`), or `None` when the clock stands
/// before the epoch. Nothing is promised of the value: it is the time.
#[verifier::external_body]
fn unix_time_nanos() -> (r: Option<u128>)
{
    match std::time::SystemTime::now().duration_since(std::time::UNIX_EPOCH) {
        Ok(d) => Some(d.as_nanos()),
        Err(_) => None,
    }
}

/// A clock reading (nanoseconds since the epoch, `None` before it) in
/// whole units of `unit` nanoseconds, cut to 64 bits; 0 before the epoch.
pub open spec fn reading_in(d: Option<u128>, unit: u128) -> u64 {
    match d {
        Some(n) => (n / unit) as u64,
        None => 0,
    }
}

/// A clock reading in milliseconds (`Duration::as_millis() as u64`).
pub open spec fn millis_reading(d: Option<u128>) -> u64 {
    reading_in(d, 1_000_000)
}

/// A clock reading in microseconds (`Duration::as_micros() as u64`).
pub open spec fn micros_reading(d: Option<u128>) -> u64 {
    reading_in(d, 1_000)
}

/// A clock reading in whole seconds (`Duration::as_secs()`).
pub open spec fn seconds_reading(d: Option<u128>) -> u64 {
    reading_in(d, 1_000_000_000)
}

/// Converts a clock reading to milliseconds.
pub fn millis_of(d: Option<u128>) -> (r: u64)
    ensures
        r == millis_reading(d),
{
    match d {
        Some(n) => (n / 1_000_000) as u64,
        None => 0,
    }
}

/// Converts a clock reading to microseconds.
pub fn micros_of(d: Option<u128>) -> (r: u64)
    ensures
        r == micros_reading(d),
{
    match d {
        Some(n) => (n / 1_000) as u64,
        None => 0,
    }
}

/// Converts a clock reading to whole seconds.
pub fn seconds_of(d: Option<u128>) -> (r: u64)
    ensures
        r == seconds_reading(d),
{
    match d {
        Some(n) => (n / 1_000_000_000) as u64,
        None => 0,
    }
}

/// Milliseconds since the Unix epoch, 0 when the clock reads earlier,
/// truncated to 64 bits: the millisecond value of a clock reading (which
/// reading is the time).
pub fn unix_millis() -> (r: u64)
    ensures
        exists|d: Option<u128>| r == millis_reading(d),
{
    let d = unix_time_nanos();
    millis_of(d)
}

/// Microseconds since the Unix epoch, 0 when the clock reads earlier,
/// truncated to 64 bits: the microsecond value of a clock reading.
pub fn unix_micros() -> (r: u64)
    ensures
        exists|d: Option<u128>| r == micros_reading(d),
{
    let d = unix_time_nanos();
    micros_of(d)
}

/// A clock reading shifted by an offset (the server's clock minus the
/// local one), as a millisecond count: 0 where the sum is not positive,
/// and saturating at `i64::MAX`.
pub fn offset_millis(local_ms: i64, offset_ms: i64) -> (r: u64)
    ensures
        r == (if local_ms + offset_ms <= 0 {
            0
        } else if local_ms + offset_ms > i64::MAX {
            i64::MAX as int
        } else {
            local_ms + offset_ms
        }),
{
    let sum: i128 = local_ms as i128 + offset_ms as i128;
    if sum <= 0 {
        0
    } else if sum > i64::MAX as i128 {
        i64::MAX as u64
    } else {
        sum as u64
    }
}

/// A local reading in milliseconds shifted by an offset: 0 where the sum
/// is not positive, saturating at `i64::MAX`.
pub open spec fn shifted_millis(local_ms: int, offset_ms: int) -> int {
    if local_ms + offset_ms <= 0 {
        0
    } else if local_ms + offset_ms > i64::MAX {
        i64::MAX as int
    } else {
        local_ms + offset_ms
    }
}

/// Milliseconds on the local clock shifted by `offset_ms`, as
/// `offset_millis` computes them from the current time: the shift of the
/// millisecond value of a clock reading, capped at `i64::MAX`. Which
/// reading is the time.
pub fn shifted_now_ms(offset_ms: i64) -> (r: u64)
    ensures
        r <= i64::MAX,
        exists|d: Option<u128>|
            #![trigger millis_reading(d)]
            r == shifted_millis(
                if millis_reading(d) > i64::MAX { i64::MAX as int } else { millis_reading(d) as int },
                offset_ms as int,
            ),
        exists|local_ms: int| 0 <= local_ms <= i64::MAX && r == shifted_millis(local_ms, offset_ms as int),
{
    let local: u64 = unix_millis();
    let local_ms: i64 = if local > i64::MAX as u64 { i64::MAX } else { local as i64 };
    let r = offset_millis(local_ms, offset_ms);
    assert(0 <= local_ms && r == shifted_millis(local_ms as int, offset_ms as int));
    r
}

/// The offset of a server's clock from the local one.
pub fn clock_offset(server_ms: i64, local_ms: i64) -> (r: i64)
    requires
        i64::MIN <= server_ms - local_ms <= i64::MAX,
    ensures
        r == server_ms - local_ms,
{
    server_ms - local_ms
}

/// Whole seconds since the Unix epoch, 0 when the clock reads earlier,
/// truncated to 64 bits: the second value of a clock reading.
pub fn unix_seconds() -> (r: u64)
    ensures
        exists|d: Option<u128>| r == seconds_reading(d),
{
    let d = unix_time_nanos();
    seconds_of(d)
}

/// The Unix time in milliseconds of an RFC 3339 timestamp as `chrono`
/// reads it (`DateTime::parse_from_rfc3339`, then `timestamp_millis`);
/// `None` where it does not parse.
pub uninterp spec fn rfc3339_millis(s: Seq<char>) -> Option<i64>;

/// The Unix time in milliseconds of a timestamp read by `chrono` with the
/// strftime-style format `fmt` (`DateTime::parse_from_str`, then
/// `timestamp_millis`); `None` where it does not parse.
pub uninterp spec fn formatted_millis(s: Seq<char>, fmt: Seq<char>) -> Option<i64>;

/// Wraps `chrono::DateTime::parse_from_rfc3339` and `timestamp_millis`:
/// the result is `rfc3339_millis` of the text.
#[verifier::external_body]
fn parse_rfc3339_millis(s: &str) -> (r: Option<i64>)
    ensures
        r == rfc3339_millis(s@),
{
    match chrono::DateTime::parse_from_rfc3339(s) {
        Ok(dt) => Some(dt.timestamp_millis()),
        Err(_) => None,
    }
}

/// Wraps `chrono::DateTime::parse_from_str` and `timestamp_millis`: the
/// result is `formatted_millis` of the text and format.
#[verifier::external_body]
fn parse_formatted_millis(s: &str, fmt: &str) -> (r: Option<i64>)
    ensures
        r == formatted_millis(s@, fmt@),
{
    match chrono::DateTime::parse_from_str(s, fmt) {
        Ok(dt) => Some(dt.timestamp_millis()),
        Err(_) => None,
    }
}

/// The fallback format of ISO-8601 timestamps: fractional seconds and a
/// numeric zone offset.
pub const ISO_FALLBACK_FORMAT: &'static str = "%Y-%m-%dT%H:%M:%S%.f%z";

/// Milliseconds of an ISO-8601 timestamp such as
/// `2025-01-18T15:36:43.199+00:00`: read as RFC 3339, else with
/// `ISO_FALLBACK_FORMAT`, else 0.
pub fn parse_iso_ms(s: &str) -> (r: i64)
    ensures
        r == match rfc3339_millis(s@) {
            Some(m) => m,
            None => match formatted_millis(s@, ISO_FALLBACK_FORMAT@) {
                Some(m) => m,
                None => 0,
            },
        },
{
    match parse_rfc3339_millis(s) {
        Some(m) => m,
        None => match parse_formatted_millis(s, ISO_FALLBACK_FORMAT) {
            Some(m) => m,
            None => 0,
        },
    }
}

/// When a session token expires, in Unix milliseconds: the reply's RFC 3339
/// `expireTime` (cut to 64 unsigned bits), else 29 minutes from `now_ms`.
pub fn token_expiry_ms(expire_time: Option<&str>, now_ms: u64) -> (r: u64)
    requires
        now_ms <= u64::MAX - 1_740_000,
    ensures
        r == match expire_time {
            Some(t) => match rfc3339_millis(t@) {
                Some(m) => m as u64,
                None => (now_ms + 1_740_000) as u64,
            },
            None => (now_ms + 1_740_000) as u64,
        },
{
    let parsed = match expire_time {
        Some(t) => parse_rfc3339_millis(t),
        None => None,
    };
    match parsed {
        Some(m) => m as u64,
        None => now_ms + 29 * 60 * 1000,
    }
}

/// The UTC time of a Unix millisecond count as `chrono` writes it with the
/// format `%Y-%m-%dT%H:%M:%S%.3fZ` (`DateTime::from_timestamp_millis`, then
/// `format`), such as `2024-03-29T08:00:00.123Z`; `None` where the count is
/// out of `chrono`'s range.
pub uninterp spec fn iso_millis_text(ms: i64) -> Option<Seq<char>>;

/// Wraps `chrono::DateTime::from_timestamp_millis` and `format` with
/// `%Y-%m-%dT%H:%M:%S%.3fZ`: the result is `iso_millis_text` of the count.
#[verifier::external_body]
fn format_iso_millis(ms: i64) -> (r: Option<String>)
    ensures
        match r {
            Some(t) => iso_millis_text(ms) == Some(t@),
            None => iso_millis_text(ms) is None,
        },
{
    match chrono::DateTime::from_timestamp_millis(ms) {
        Some(dt) => Some(dt.format("%Y-%m-%dT%H:%M:%S%.3fZ").to_string()),
        None => None,
    }
}

/// The current UTC time to the millisecond, as OKX request timestamps
/// write it (`2024-03-29T08:00:00.123Z`): the text of a clock reading in
/// milliseconds (empty where `chrono` could not place it).
pub fn okx_timestamp_now() -> (r: String)
    ensures
        exists|d: Option<u128>|
            match #[trigger] iso_millis_text(millis_reading(d) as i64) {
                Some(t) => r@ == t,
                None => r@ == Seq::<char>::empty(),
            },
{
    let ms = unix_millis();
    match format_iso_millis(ms as i64) {
        Some(t) => t,
        None => String::new(),
    }
}

} // verus!
