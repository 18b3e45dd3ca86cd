//! Unix timestamps as dates and times in UTC, and back. The calendar is
//! `chrono`'s: what it makes of an instant or of a text is taken on trust
//! and only named here.

use vstd::prelude::*;
use vstd::string::StringSliceAdditionalSpecFns;
use vstd::utf8::encode_utf8;
use chrono::{DateTime, LocalResult, TimeZone, Utc};
use crate::decimal::{digits_u64, spec_digits_u64};

verus! {

/// Why a timestamp could not be converted.
#[derive(Clone, Copy, Debug, PartialEq, Eq, Structural)]
pub enum TimeError {
    /// The text is not of a form that is read.
    BadInput,
    /// The instant is beyond what can be represented.
    OutOfRange,
}

/// The text of the UTC date and time at `secs` seconds and `nanos`
/// nanoseconds after the epoch, as `chrono` displays it; nothing where
/// `chrono` has no such date and time.
pub uninterp spec fn spec_utc_display(secs: i64, nanos: u32) -> Option<Seq<char>>;

/// The same date and time in the form of RFC 3339.
pub uninterp spec fn spec_utc_rfc3339(secs: i64, nanos: u32) -> Option<Seq<char>>;

/// The instant that a text in the form of RFC 3339 states, in seconds after
/// the epoch and milliseconds within the second, as `chrono` reads it.
pub uninterp spec fn spec_parse_rfc3339(text: Seq<char>) -> Option<(i64, u32)>;

/// The instant that a text in the form `%Y-%m-%d %H:%M:%S %z` states.
pub uninterp spec fn spec_parse_with_offset(text: Seq<char>) -> Option<(i64, u32)>;

/// The instant that a text in the form `%Y-%m-%d %H:%M:%S` states, taken as
/// UTC.
pub uninterp spec fn spec_parse_as_utc(text: Seq<char>) -> Option<(i64, u32)>;

/// The view of a text that may be missing.
pub open spec fn text_view(text: Option<String>) -> Option<Seq<char>> {
    match text {
        Some(s) => Some(s@),
        None => None,
    }
}

/// `chrono::TimeZone::timestamp_opt` on `Utc`, and `to_string` on the date
/// and time it gives: the name `spec_utc_display` stands for the outcome.
#[verifier::external_body]
fn utc_display(secs: i64, nanos: u32) -> (r: Option<String>)
    ensures
        text_view(r) == spec_utc_display(secs, nanos),
{
    match Utc.timestamp_opt(secs, nanos) {
        LocalResult::Single(instant) => Some(instant.to_string()),
        _ => None,
    }
}

/// `chrono::TimeZone::timestamp_opt` on `Utc`, and `DateTime::to_rfc3339` on
/// the date and time it gives: the name `spec_utc_rfc3339` stands for the
/// outcome.
#[verifier::external_body]
fn utc_rfc3339(secs: i64, nanos: u32) -> (r: Option<String>)
    ensures
        text_view(r) == spec_utc_rfc3339(secs, nanos),
{
    match Utc.timestamp_opt(secs, nanos) {
        LocalResult::Single(instant) => Some(instant.to_rfc3339()),
        _ => None,
    }
}

/// `chrono::DateTime::parse_from_rfc3339`, with `timestamp` and
/// `timestamp_subsec_millis` of what it gives: the name `spec_parse_rfc3339`
/// stands for the outcome, nothing where the text is refused.
#[verifier::external_body]
fn parse_rfc3339(text: &str) -> (r: Option<(i64, u32)>)
    ensures
        r == spec_parse_rfc3339(text@),
{
    match DateTime::parse_from_rfc3339(text) {
        Ok(instant) => Some((instant.timestamp(), instant.timestamp_subsec_millis())),
        Err(_) => None,
    }
}

/// `chrono::DateTime::parse_from_str` with the format
/// `%Y-%m-%d %H:%M:%S %z`, with `timestamp` and `timestamp_subsec_millis` of
/// what it gives: the name `spec_parse_with_offset` stands for the outcome.
#[verifier::external_body]
fn parse_with_offset(text: &str) -> (r: Option<(i64, u32)>)
    ensures
        r == spec_parse_with_offset(text@),
{
    match DateTime::parse_from_str(text, "%Y-%m-%d %H:%M:%S %z") {
        Ok(instant) => Some((instant.timestamp(), instant.timestamp_subsec_millis())),
        Err(_) => None,
    }
}

/// `chrono::TimeZone::datetime_from_str` on `Utc` with the format
/// `%Y-%m-%d %H:%M:%S`, with `timestamp` and `timestamp_subsec_millis` of
/// what it gives: the name `spec_parse_as_utc` stands for the outcome.
#[verifier::external_body]
fn parse_as_utc(text: &str) -> (r: Option<(i64, u32)>)
    ensures
        r == spec_parse_as_utc(text@),
{
    #[allow(deprecated)]
    match Utc.datetime_from_str(text, "%Y-%m-%d %H:%M:%S") {
        Ok(instant) => Some((instant.timestamp(), instant.timestamp_subsec_millis())),
        Err(_) => None,
    }
}

/// The value of a signed decimal literal: an optional `+` or `-`, then at
/// least one digit and nothing but digits, stating a number that fits in 64
/// bits with its sign.
pub open spec fn spec_parse_i64(s: Seq<u8>) -> Option<i64> {
    let signed = s.len() > 0 && (s[0] == 0x2b || s[0] == 0x2d);
    let negative = s.len() > 0 && s[0] == 0x2d;
    let digits = if signed {
        s.skip(1)
    } else {
        s
    };
    if digits.len() == 0 {
        None
    } else {
        match spec_digits_u64(digits) {
            None => None,
            Some(magnitude) => if negative {
                if magnitude <= 0x8000_0000_0000_0000 {
                    Some((-(magnitude as int)) as i64)
                } else {
                    None
                }
            } else {
                if magnitude <= i64::MAX {
                    Some(magnitude as i64)
                } else {
                    None
                }
            },
        }
    }
}

/// Reads a signed decimal literal as a 64-bit number.
pub fn parse_i64(s: &[u8]) -> (r: Option<i64>)
    ensures
        r == spec_parse_i64(s@),
{
    let mut start: usize = 0;
    let mut negative = false;
    if s.len() > 0 && (s[0] == 0x2b || s[0] == 0x2d) {
        start = 1;
        negative = s[0] == 0x2d;
    }
    proof {
        assert(s@.skip(0) =~= s@);
    }
    if start == s.len() {
        return None;
    }
    let magnitude = match digits_u64(s, start) {
        Some(m) => m,
        None => {
            return None;
        },
    };
    if negative {
        if magnitude == 0x8000_0000_0000_0000 {
            Some(i64::MIN)
        } else if magnitude < 0x8000_0000_0000_0000 {
            Some(-(magnitude as i64))
        } else {
            None
        }
    } else {
        if magnitude <= i64::MAX as u64 {
            Some(magnitude as i64)
        } else {
            None
        }
    }
}

/// A timestamp as whole seconds and the nanoseconds within the second.
///
/// A timestamp in seconds has no nanoseconds. One in milliseconds is divided
/// by 1000, rounding towards zero, and the rest, in nanoseconds, is taken as
/// a 32-bit number without sign: of a negative rest that makes a number that
/// no second has nanoseconds of.
pub open spec fn spec_split(timestamp: i64, use_millis: bool) -> (i64, u32) {
    if !use_millis {
        (timestamp, 0u32)
    } else if timestamp >= 0 {
        ((timestamp / 1000) as i64, (timestamp % 1000 * 1_000_000) as u32)
    } else {
        (
            (-((-timestamp) / 1000)) as i64,
            if (-timestamp) % 1000 == 0 {
                0u32
            } else {
                (0x1_0000_0000 - (-timestamp) % 1000 * 1_000_000) as u32
            },
        )
    }
}

/// Splits a timestamp into whole seconds and nanoseconds.
pub fn split_timestamp(timestamp: i64, use_millis: bool) -> (r: (i64, u32))
    ensures
        r == spec_split(timestamp, use_millis),
{
    if !use_millis {
        (timestamp, 0)
    } else {
        let seconds = timestamp / 1000;
        let rest = timestamp % 1000;
        if rest >= 0 {
            (seconds, (rest * 1_000_000) as u32)
        } else {
            (seconds, (0x1_0000_0000i64 + rest * 1_000_000) as u32)
        }
    }
}

/// What is made of the text that `chrono` gave for an instant: the text, or
/// `OutOfRange` where it gave none.
pub open spec fn spec_rendered(text: Option<Seq<char>>) -> Result<Seq<char>, TimeError> {
    match text {
        Some(t) => Ok(t),
        None => Err(TimeError::OutOfRange),
    }
}

/// Hands on the text of an instant, or fails with `OutOfRange` where there is
/// none.
pub fn rendered(text: Option<String>) -> (r: Result<String, TimeError>)
    ensures
        match r {
            Ok(t) => spec_rendered(text_view(text)) == Ok::<Seq<char>, TimeError>(t@),
            Err(e) => spec_rendered(text_view(text)) == Err::<Seq<char>, TimeError>(e),
        },
{
    match text {
        Some(t) => Ok(t),
        None => Err(TimeError::OutOfRange),
    }
}

/// The date and time that a Unix timestamp states, as text.
pub open spec fn spec_unix_to_utc(input: Seq<u8>, use_millis: bool, use_iso_format: bool) -> Result<
    Seq<char>,
    TimeError,
> {
    match spec_parse_i64(input) {
        None => Err(TimeError::BadInput),
        Some(timestamp) => {
            let (secs, nanos) = spec_split(timestamp, use_millis);
            spec_rendered(
                if use_iso_format {
                    spec_utc_rfc3339(secs, nanos)
                } else {
                    spec_utc_display(secs, nanos)
                },
            )
        },
    }
}

/// Converts a Unix timestamp, in seconds or in milliseconds, into the text of
/// its date and time in UTC, in the form of RFC 3339 or as `chrono` displays
/// it.
///
/// Fails with `BadInput` where the text is no signed decimal number of 64
/// bits, and with `OutOfRange` where `chrono` has no date and time for the
/// timestamp.
pub fn unix_to_utc(input: &str, use_millis: bool, use_iso_format: bool) -> (r: Result<
    String,
    TimeError,
>)
    ensures
        match r {
            Ok(text) => spec_unix_to_utc(encode_utf8(input@), use_millis, use_iso_format) == Ok::<
                Seq<char>,
                TimeError,
            >(text@),
            Err(e) => spec_unix_to_utc(encode_utf8(input@), use_millis, use_iso_format) == Err::<
                Seq<char>,
                TimeError,
            >(e),
        },
{
    let timestamp = match parse_i64(input.as_bytes()) {
        Some(n) => n,
        None => {
            return Err(TimeError::BadInput);
        },
    };
    let (secs, nanos) = split_timestamp(timestamp, use_millis);
    if use_iso_format {
        rendered(utc_rfc3339(secs, nanos))
    } else {
        rendered(utc_display(secs, nanos))
    }
}

/// The timestamp of an instant: its seconds, or its milliseconds.
pub open spec fn spec_timestamp(seconds: i64, subsec_millis: u32, use_millis: bool) -> int {
    if use_millis {
        seconds * 1000 + subsec_millis
    } else {
        seconds as int
    }
}

/// Whether the timestamp of an instant can be computed in 64 bits: in
/// milliseconds, both the seconds times 1000 and the sum have to fit.
pub open spec fn spec_timestamp_fits(seconds: i64, subsec_millis: u32, use_millis: bool) -> bool {
    use_millis ==> i64::MIN <= seconds * 1000 <= i64::MAX && seconds * 1000 + subsec_millis
        <= i64::MAX
}

/// Computes the timestamp of an instant, in seconds or in milliseconds, which
/// must be computable in 64 bits.
pub fn output_timestamp(seconds: i64, subsec_millis: u32, use_millis: bool) -> (r: i64)
    requires
        spec_timestamp_fits(seconds, subsec_millis, use_millis),
    ensures
        r == spec_timestamp(seconds, subsec_millis, use_millis),
{
    if use_millis {
        (seconds * 1000) + (subsec_millis as i64)
    } else {
        seconds
    }
}

/// The instant that a text states: the first of the three forms that it is
/// of, tried in the order RFC 3339, date and time with offset, date and time
/// alone, the last being taken as UTC.
pub open spec fn spec_instant(text: Seq<char>) -> Option<(i64, u32)> {
    match spec_parse_rfc3339(text) {
        Some(found) => Some(found),
        None => match spec_parse_with_offset(text) {
            Some(found) => Some(found),
            None => spec_parse_as_utc(text),
        },
    }
}

/// What is made of the instant that was read from a text: its timestamp;
/// `BadInput` where none was read; `OutOfRange` where the timestamp cannot be
/// computed in 64 bits.
pub open spec fn spec_instant_timestamp(instant: Option<(i64, u32)>, use_millis: bool) -> Result<
    i64,
    TimeError,
> {
    match instant {
        None => Err(TimeError::BadInput),
        Some((seconds, subsec_millis)) => if spec_timestamp_fits(
            seconds,
            subsec_millis,
            use_millis,
        ) {
            Ok(spec_timestamp(seconds, subsec_millis, use_millis) as i64)
        } else {
            Err(TimeError::OutOfRange)
        },
    }
}

/// Computes the timestamp of the instant that was read from a text, if one
/// was.
pub fn instant_timestamp(instant: Option<(i64, u32)>, use_millis: bool) -> (r: Result<
    i64,
    TimeError,
>)
    ensures
        r == spec_instant_timestamp(instant, use_millis),
{
    match instant {
        None => Err(TimeError::BadInput),
        Some((seconds, subsec_millis)) => {
            if !use_millis {
                return Ok(output_timestamp(seconds, subsec_millis, false));
            }
            if seconds > i64::MAX / 1000 || seconds < i64::MIN / 1000 {
                return Err(TimeError::OutOfRange);
            }
            if seconds * 1000 > i64::MAX - subsec_millis as i64 {
                return Err(TimeError::OutOfRange);
            }
            Ok(output_timestamp(seconds, subsec_millis, true))
        },
    }
}

/// Converts the text of a date and time into its Unix timestamp, in seconds
/// or in milliseconds.
///
/// Fails with `BadInput` where the text is of none of the three forms that
/// are read.
pub fn utc_to_unix(input: &str, use_millis: bool) -> (r: Result<i64, TimeError>)
    ensures
        r == spec_instant_timestamp(spec_instant(input@), use_millis),
{
    let instant = match parse_rfc3339(input) {
        Some(found) => Some(found),
        None => match parse_with_offset(input) {
            Some(found) => Some(found),
            None => parse_as_utc(input),
        },
    };
    instant_timestamp(instant, use_millis)
}

} // verus!
