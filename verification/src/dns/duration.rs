//! Numbers of seconds in words.

use vstd::prelude::*;
use vstd::string::StringExecFns;
use crate::text::{decimal_string, spec_decimal_text};

verus! {

/// A count with its unit: `1 day` for one, `3 days` for three.
pub open spec fn spec_count(n: nat, unit: Seq<char>) -> Seq<char> {
    if n == 1 {
        "1 "@ + unit
    } else {
        spec_decimal_text(n) + " "@ + unit + "s"@
    }
}

/// The separator in front of a part that is not the first.
pub open spec fn spec_separator(not_first: bool) -> Seq<char> {
    if not_first {
        ", "@
    } else {
        Seq::empty()
    }
}

/// A number of seconds in words: the days, hours, minutes and seconds that
/// are not zero, largest first, separated by `, `; `0 seconds` for zero.
pub open spec fn spec_format_time(total_sec: u32) -> Seq<char> {
    let seconds = (total_sec % 60) as nat;
    let minutes = (total_sec / 60 % 60) as nat;
    let hours = (total_sec / 3600 % 24) as nat;
    let days = (total_sec / 86400) as nat;
    let with_days = if days != 0 {
        spec_count(days, "day"@)
    } else {
        Seq::empty()
    };
    let with_hours = if hours != 0 {
        with_days + spec_separator(days != 0) + spec_count(hours, "hour"@)
    } else {
        with_days
    };
    let with_minutes = if minutes != 0 {
        with_hours + spec_separator(days != 0 || hours != 0) + spec_count(minutes, "minute"@)
    } else {
        with_hours
    };
    if seconds != 0 || (days == 0 && hours == 0 && minutes == 0) {
        with_minutes + spec_separator(days != 0 || hours != 0 || minutes != 0) + spec_count(
            seconds,
            "second"@,
        )
    } else {
        with_minutes
    }
}

/// Appends `, ` where a part stands already, then the count with its unit.
fn push_count(result: &mut String, not_first: bool, n: u32, unit: &str)
    ensures
        final(result)@ == old(result)@ + spec_separator(not_first) + spec_count(n as nat, unit@),
{
    if not_first {
        result.append(", ");
    } else {
        assert(result@ + spec_separator(not_first) =~= result@);
    }
    if n == 1 {
        result.append("1 ");
        result.append(unit);
        assert(result@ =~= old(result)@ + spec_separator(not_first) + spec_count(n as nat, unit@));
    } else {
        let digits = decimal_string(n as u64);
        result.append(digits.as_str());
        result.append(" ");
        result.append(unit);
        result.append("s");
        assert(result@ =~= old(result)@ + spec_separator(not_first) + spec_count(n as nat, unit@));
    }
}

/// Writes a number of seconds in words, such as `1 day, 2 hours, 5 seconds`.
pub fn format_time(total_sec: u32) -> (r: String)
    ensures
        r@ == spec_format_time(total_sec),
{
    let mut result = String::new();
    let mut time = total_sec;
    let seconds = time % 60;
    time /= 60;
    let minutes = time % 60;
    time /= 60;
    let hours = time % 24;
    let days = time / 24;
    assert(days == total_sec / 86400 && hours == total_sec / 3600 % 24);
    let mut any = false;
    if days != 0 {
        push_count(&mut result, false, days, "day");
        assert(result@ =~= spec_count(days as nat, "day"@));
        any = true;
    }
    if hours != 0 {
        push_count(&mut result, any, hours, "hour");
        any = true;
    }
    if minutes != 0 {
        push_count(&mut result, any, minutes, "minute");
        any = true;
    }
    if (seconds != 0) || !any {
        push_count(&mut result, any, seconds, "second");
    }
    result
}

} // verus!
