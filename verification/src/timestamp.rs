//! The timestamp tool: the current time, formatting, parsing, arithmetic and
//! differences of timestamps. Calendar work is chrono's; this module decides
//! what to ask of it and words the answers.

use vstd::prelude::*;
use std::fmt::Write;
use crate::clock::now;
use crate::error::HeliosError;
use crate::json::{JsonValue, str_arg, i64_arg};
use crate::text::{owned, push_str, str_eq, parse_i64, parse_i64_exec, signed_decimal, i64_to_string};
use crate::tools::{ToolResult, is_success};

verus! {

/// A point in time as chrono holds it: seconds since the epoch, nanoseconds
/// (at or past a billion during a leap second), and the UTC offset it is shown
/// with, in seconds east.
#[derive(Debug, Clone, Copy)]
pub struct DateTimeParts {
    /// Seconds since 1970-01-01T00:00:00Z.
    pub secs: i64,
    /// Nanoseconds past `secs`.
    pub nanos: u32,
    /// The offset from UTC, in seconds east.
    pub offset: i32,
}

/// Whether `chrono::DateTime::from_timestamp(secs, nanos)` gives a time: the
/// seconds must fall between the first second of January 1, 262144 BCE and the
/// last of December 31, 262142 CE (chrono's range of dates), and the
/// nanoseconds must be under a second, or under two seconds for a leap second,
/// which only the 59th second of a minute can hold.
pub open spec fn from_timestamp_ok(secs: i64, nanos: u32) -> bool {
    &&& secs_in_range(secs as int)
    &&& (nanos < 1_000_000_000 || (nanos < 2_000_000_000 && secs % 60 == 59))
}

/// Whether `x` seconds since the epoch fall within chrono's range of dates.
pub open spec fn secs_in_range(x: int) -> bool {
    -8334601228800 <= x <= 8210266876799
}

/// What `chrono::DateTime::parse_from_rfc3339` gives for a text: the time's
/// seconds, nanoseconds and offset, or the parse error's text.
pub uninterp spec fn rfc3339_parse(s: Seq<char>) -> Result<(i64, u32, i32), Seq<char>>;

/// What `chrono::NaiveDateTime::parse_from_str(s, fmt)` gives, read as UTC: the
/// time's seconds and nanoseconds, or the parse error's text.
pub uninterp spec fn naive_parse(s: Seq<char>, fmt: Seq<char>) -> Result<(i64, u32), Seq<char>>;

/// The text of `DateTime::to_rfc3339` for a time shown at `offset`.
pub uninterp spec fn rfc3339_text(secs: i64, nanos: u32, offset: i32) -> Seq<char>;

/// The text of a UTC time formatted by the strftime-style `fmt` with chrono's
/// `format`, or none when `fmt` holds an item chrono cannot format (displaying
/// it then fails).
pub uninterp spec fn strftime(secs: i64, nanos: u32, fmt: Seq<char>) -> Option<Seq<char>>;

/// The time `checked_add_signed` gives for a time plus `delta` seconds, if in range.
pub uninterp spec fn time_plus(secs: i64, nanos: u32, delta: i64) -> Option<(i64, u32)>;

/// The time `checked_sub_signed` gives for a time minus `delta` seconds, if in range.
pub uninterp spec fn time_minus(secs: i64, nanos: u32, delta: i64) -> Option<(i64, u32)>;

/// The time `delta` seconds after (`secs`, `nanos`), if chrono can hold it:
/// outside a leap second the seconds move and the nanoseconds stay; in a leap
/// second it is what `checked_add_signed` gives.
pub open spec fn time_after(secs: i64, nanos: u32, delta: i64) -> Option<(i64, u32)> {
    if nanos < 1_000_000_000 {
        if secs_in_range(secs + delta) {
            Some(((secs + delta) as i64, nanos))
        } else {
            None
        }
    } else {
        time_plus(secs, nanos, delta)
    }
}

/// The time `delta` seconds before (`secs`, `nanos`), if chrono can hold it:
/// outside a leap second the seconds move and the nanoseconds stay; in a leap
/// second it is what `checked_sub_signed` gives.
pub open spec fn time_before(secs: i64, nanos: u32, delta: i64) -> Option<(i64, u32)> {
    if nanos < 1_000_000_000 {
        if secs_in_range(secs - delta) {
            Some(((secs - delta) as i64, nanos))
        } else {
            None
        }
    } else {
        time_minus(secs, nanos, delta)
    }
}

/// The largest number of whole seconds a `chrono::TimeDelta` can hold
/// (`i64::MAX / 1000`); `TimeDelta::seconds` panics beyond it either way.
pub open spec fn max_delta_secs() -> int {
    9223372036854775
}

/// Whether an offset is one `FixedOffset::east_opt` accepts.
pub open spec fn offset_ok(offset: i32) -> bool {
    -86400 < offset < 86400
}

/// Whether `d` is a time chrono can hold.
pub open spec fn parts_ok(d: DateTimeParts) -> bool {
    from_timestamp_ok(d.secs, d.nanos) && offset_ok(d.offset)
}

/// `chrono::DateTime::from_timestamp(secs, nanos)`, by its parts (at offset 0);
/// a time round-trips through its parts.
#[verifier::external_body]
fn from_timestamp(secs: i64, nanos: u32) -> (r: Option<DateTimeParts>)
    ensures
        match r {
            Some(d) => from_timestamp_ok(secs, nanos) && d.secs == secs && d.nanos == nanos && d.offset == 0,
            None => !from_timestamp_ok(secs, nanos),
        },
{
    match chrono::DateTime::from_timestamp(secs, nanos) {
        Some(dt) => Some(DateTimeParts { secs: dt.timestamp(), nanos: dt.timestamp_subsec_nanos(), offset: 0 }),
        None => None,
    }
}

/// `chrono::DateTime::parse_from_rfc3339`, by the parts of the time it reads
/// (always one chrono can hold) or the text of its error.
#[verifier::external_body]
fn parse_rfc3339(s: &str) -> (r: Result<DateTimeParts, String>)
    ensures
        match rfc3339_parse(s@) {
            Ok(t) => r matches Ok(d) && d.secs == t.0 && d.nanos == t.1 && d.offset == t.2 && parts_ok(d),
            Err(e) => r matches Err(m) && m@ == e,
        },
{
    match chrono::DateTime::parse_from_rfc3339(s) {
        Ok(dt) => Ok(DateTimeParts {
            secs: dt.timestamp(),
            nanos: dt.timestamp_subsec_nanos(),
            offset: dt.offset().local_minus_utc(),
        }),
        Err(e) => Err(e.to_string()),
    }
}

/// `chrono::NaiveDateTime::parse_from_str(s, fmt)` read as UTC (`and_utc`), by the
/// parts of the time it reads (always one chrono can hold) or the text of its error.
#[verifier::external_body]
fn parse_naive_utc(s: &str, fmt: &str) -> (r: Result<DateTimeParts, String>)
    ensures
        match naive_parse(s@, fmt@) {
            Ok(t) => r matches Ok(d) && d.secs == t.0 && d.nanos == t.1 && d.offset == 0 && parts_ok(d),
            Err(e) => r matches Err(m) && m@ == e,
        },
{
    match chrono::NaiveDateTime::parse_from_str(s, fmt) {
        Ok(n) => {
            let dt = n.and_utc();
            Ok(DateTimeParts { secs: dt.timestamp(), nanos: dt.timestamp_subsec_nanos(), offset: 0 })
        },
        Err(e) => Err(e.to_string()),
    }
}

/// `DateTime::to_rfc3339` of the time `d`, shown at its offset.
#[verifier::external_body]
fn to_rfc3339(d: &DateTimeParts) -> (s: String)
    requires
        parts_ok(*d),
    ensures
        s@ == rfc3339_text(d.secs, d.nanos, d.offset),
{
    let offset = chrono::FixedOffset::east_opt(d.offset).unwrap();
    chrono::DateTime::from_timestamp(d.secs, d.nanos).unwrap().with_timezone(&offset).to_rfc3339()
}

/// `DateTime<Utc>::format(fmt)` displayed into a string; none when displaying fails.
#[verifier::external_body]
fn format_utc(d: &DateTimeParts, fmt: &str) -> (r: Option<String>)
    requires
        from_timestamp_ok(d.secs, d.nanos),
    ensures
        match strftime(d.secs, d.nanos, fmt@) {
            Some(t) => r matches Some(s) && s@ == t,
            None => r is None,
        },
{
    let dt = chrono::DateTime::from_timestamp(d.secs, d.nanos).unwrap();
    let mut s = String::new();
    match write!(s, "{}", dt.format(fmt)) {
        Ok(()) => Some(s),
        Err(_) => None,
    }
}

/// The time `d` shown in the machine's local time zone. It depends on the
/// machine's settings; nothing is promised of it.
#[verifier::external_body]
fn local_text(d: &DateTimeParts) -> (s: String)
    requires
        from_timestamp_ok(d.secs, d.nanos),
{
    let dt = chrono::DateTime::from_timestamp(d.secs, d.nanos).unwrap();
    format!("{}", dt.with_timezone(&chrono::Local::now().timezone()))
}

/// `DateTime::checked_add_signed` with `TimeDelta::seconds(delta)`: the time
/// `delta` seconds later, if chrono can hold it; the offset stays.
#[verifier::external_body]
fn shift_later(d: &DateTimeParts, delta: i64) -> (r: Option<DateTimeParts>)
    requires
        parts_ok(*d),
        -max_delta_secs() <= delta <= max_delta_secs(),
    ensures
        match time_plus(d.secs, d.nanos, delta) {
            Some(t) => r matches Some(e) && e.secs == t.0 && e.nanos == t.1 && e.offset == d.offset && parts_ok(e),
            None => r is None,
        },
        d.nanos < 1_000_000_000 ==> match r {
            Some(e) => secs_in_range(d.secs + delta) && e.secs == d.secs + delta && e.nanos == d.nanos,
            None => !secs_in_range(d.secs + delta),
        },
{
    let offset = chrono::FixedOffset::east_opt(d.offset).unwrap();
    let dt = chrono::DateTime::from_timestamp(d.secs, d.nanos).unwrap().with_timezone(&offset);
    match dt.checked_add_signed(chrono::TimeDelta::seconds(delta)) {
        Some(x) => Some(DateTimeParts { secs: x.timestamp(), nanos: x.timestamp_subsec_nanos(), offset: d.offset }),
        None => None,
    }
}

/// `DateTime::checked_sub_signed` with `TimeDelta::seconds(delta)`: the time
/// `delta` seconds earlier, if chrono can hold it; the offset stays.
#[verifier::external_body]
fn shift_earlier(d: &DateTimeParts, delta: i64) -> (r: Option<DateTimeParts>)
    requires
        parts_ok(*d),
        -max_delta_secs() <= delta <= max_delta_secs(),
    ensures
        match time_minus(d.secs, d.nanos, delta) {
            Some(t) => r matches Some(e) && e.secs == t.0 && e.nanos == t.1 && e.offset == d.offset && parts_ok(e),
            None => r is None,
        },
        d.nanos < 1_000_000_000 ==> match r {
            Some(e) => secs_in_range(d.secs - delta) && e.secs == d.secs - delta && e.nanos == d.nanos,
            None => !secs_in_range(d.secs - delta),
        },
{
    let offset = chrono::FixedOffset::east_opt(d.offset).unwrap();
    let dt = chrono::DateTime::from_timestamp(d.secs, d.nanos).unwrap().with_timezone(&offset);
    match dt.checked_sub_signed(chrono::TimeDelta::seconds(delta)) {
        Some(x) => Some(DateTimeParts { secs: x.timestamp(), nanos: x.timestamp_subsec_nanos(), offset: d.offset }),
        None => None,
    }
}

/// `(a - b).num_seconds()` for chrono times `a` at or after `b`.
pub uninterp spec fn whole_seconds_between(a_secs: i64, a_nanos: u32, b_secs: i64, b_nanos: u32) -> i64;

/// `(a - b).num_seconds()` for times `a` at or after `b` (`signed_duration_since`);
/// it is never negative there.
#[verifier::external_body]
fn seconds_between(a: &DateTimeParts, b: &DateTimeParts) -> (n: i64)
    requires
        from_timestamp_ok(a.secs, a.nanos),
        from_timestamp_ok(b.secs, b.nanos),
        later_or_same(*a, *b),
    ensures
        n == whole_seconds_between(a.secs, a.nanos, b.secs, b.nanos),
        n >= 0,
        a.nanos < 1_000_000_000 && b.nanos < 1_000_000_000 ==> n == a.secs - b.secs - (if a.nanos < b.nanos {
            1int
        } else {
            0int
        }),
{
    let x = chrono::DateTime::from_timestamp(a.secs, a.nanos).unwrap();
    let y = chrono::DateTime::from_timestamp(b.secs, b.nanos).unwrap();
    (x - y).num_seconds()
}

/// Whether `a` is at or after `b`, as chrono orders times.
pub open spec fn later_or_same(a: DateTimeParts, b: DateTimeParts) -> bool {
    a.secs > b.secs || (a.secs == b.secs && a.nanos >= b.nanos)
}

/// The seconds in one of the units `add` and `subtract` take.
pub open spec fn unit_seconds(unit: Seq<char>) -> Option<int> {
    if unit == "seconds"@ {
        Some(1)
    } else if unit == "minutes"@ {
        Some(60)
    } else if unit == "hours"@ {
        Some(3600)
    } else if unit == "days"@ {
        Some(86400)
    } else {
        None
    }
}

/// How `format` reads its timestamp: as Unix seconds when it is an integer, else
/// as RFC 3339, else by the given format; or why it cannot.
pub open spec fn read_for_format(ts: Seq<char>, fmt: Seq<char>) -> Result<(i64, u32), Seq<char>> {
    match parse_i64(ts) {
        Some(n) => if from_timestamp_ok(n, 0) {
            Ok((n, 0))
        } else {
            Err("Invalid unix timestamp"@)
        },
        None => match rfc3339_parse(ts) {
            Ok(t) => Ok((t.0, t.1)),
            Err(_) => match naive_parse(ts, fmt) {
                Ok(t) => Ok(t),
                Err(e) => Err("Failed to parse timestamp: Tool error: Failed to parse timestamp: "@ + e),
            },
        },
    }
}

/// How `parse` reads its timestamp: as RFC 3339, else by the given format.
pub open spec fn read_for_parse(ts: Seq<char>, fmt: Seq<char>) -> Result<(i64, u32), Seq<char>> {
    match rfc3339_parse(ts) {
        Ok(t) => Ok((t.0, t.1)),
        Err(_) => match naive_parse(ts, fmt) {
            Ok(t) => Ok(t),
            Err(e) => Err("Failed to parse timestamp: "@ + e),
        },
    }
}

/// How `add` and `subtract` read their timestamp: as RFC 3339 (keeping its
/// offset), else as Unix seconds.
pub open spec fn read_for_shift(ts: Seq<char>) -> Result<(i64, u32, i32), Seq<char>> {
    match rfc3339_parse(ts) {
        Ok(t) => Ok(t),
        Err(_) => match parse_i64(ts) {
            Some(n) => if from_timestamp_ok(n, 0) {
                Ok((n, 0, 0))
            } else {
                Err("Failed to parse timestamp: Tool error: Invalid unix timestamp"@)
            },
            None => Err("Failed to parse timestamp: Tool error: Invalid timestamp format"@),
        },
    }
}

/// How `diff` reads each timestamp: as Unix seconds when it is an integer, else
/// as RFC 3339.
pub open spec fn read_for_diff(ts: Seq<char>) -> Result<(i64, u32), Seq<char>> {
    match parse_i64(ts) {
        Some(n) => if from_timestamp_ok(n, 0) {
            Ok((n, 0))
        } else {
            Err("Invalid unix timestamp"@)
        },
        None => match rfc3339_parse(ts) {
            Ok(t) => Ok((t.0, t.1)),
            Err(_) => Err("Invalid timestamp format"@),
        },
    }
}

/// The text a string argument gives, or a default.
pub open spec fn str_arg_or(args: JsonValue, k: Seq<char>, d: Seq<char>) -> Seq<char> {
    match str_arg(args, k) {
        Some(s) => s,
        None => d,
    }
}

/// The format used when none is given.
pub open spec fn default_format() -> Seq<char> {
    "%Y-%m-%d %H:%M:%S"@
}

/// The whole seconds between two times, the later minus the earlier.
pub open spec fn diff_seconds(a: (i64, u32), b: (i64, u32)) -> i64 {
    if a.0 > b.0 || (a.0 == b.0 && a.1 > b.1) {
        seconds_from(a.0, a.1, b.0, b.1)
    } else {
        seconds_from(b.0, b.1, a.0, a.1)
    }
}

/// The whole seconds from the later time (`a_secs`, `a_nanos`) back to the
/// earlier (`b_secs`, `b_nanos`): outside leap seconds the seconds apart, one
/// less when the later time's nanoseconds are the smaller; with a leap second,
/// what chrono's `num_seconds` of their difference gives.
pub open spec fn seconds_from(a_secs: i64, a_nanos: u32, b_secs: i64, b_nanos: u32) -> i64 {
    if a_nanos < 1_000_000_000 && b_nanos < 1_000_000_000 {
        (a_secs - b_secs - (if a_nanos < b_nanos { 1int } else { 0int })) as i64
    } else {
        whole_seconds_between(a_secs, a_nanos, b_secs, b_nanos)
    }
}

/// The first line of `diff`'s answer.
pub open spec fn diff_header(t1: Seq<char>, t2: Seq<char>) -> Seq<char> {
    "Time difference between "@ + t1 + " and "@ + t2 + ":\n"@
}

/// The lines of `diff`'s answer for a difference of `s` seconds.
pub open spec fn diff_lines(s: i64) -> Seq<char> {
    signed_decimal(s as int) + " seconds\n"@ + signed_decimal(s / 60) + " minutes\n"@ + signed_decimal(s / 3600)
        + " hours\n"@ + signed_decimal(s / 86400) + " days"@
}

/// For `diff` with two readable timestamps, the difference is never negative.
pub open spec fn diff_never_negative(args: JsonValue) -> bool {
    str_arg(args, "operation"@) == Some("diff"@) ==> match (str_arg(args, "timestamp1"@), str_arg(args, "timestamp2"@)) {
        (Some(t1), Some(t2)) => match (read_for_diff(t1), read_for_diff(t2)) {
            (Ok(a), Ok(b)) => diff_seconds(a, b) >= 0,
            _ => true,
        },
        _ => true,
    }
}

/// `diff` is none of the other operation names.
proof fn lemma_diff_op_distinct()
    ensures
        "diff"@ != "now"@,
        "diff"@ != "format"@,
        "diff"@ != "parse"@,
        "diff"@ != "add"@,
        "diff"@ != "subtract"@,
{
    reveal_strlit("diff");
    reveal_strlit("now");
    reveal_strlit("format");
    reveal_strlit("parse");
    reveal_strlit("add");
    reveal_strlit("subtract");
    assert("diff"@.len() != "now"@.len());
    assert("diff"@.len() != "format"@.len());
    assert("diff"@.len() != "parse"@.len());
    assert("diff"@.len() != "add"@.len());
    assert("diff"@.len() != "subtract"@.len());
}

/// The difference does not depend on the order of the two times.
pub proof fn lemma_diff_seconds_symmetric(a: (i64, u32), b: (i64, u32))
    ensures
        diff_seconds(a, b) == diff_seconds(b, a),
{
}

/// Swapping the two timestamps of `diff` changes only the first line of the
/// answer: the seconds, minutes, hours and days lines stay the same.
pub proof fn lemma_diff_swap(args1: JsonValue, args2: JsonValue, now: DateTimeParts, local: Seq<char>, t1: Seq<char>, t2: Seq<char>)
    requires
        str_arg(args1, "operation"@) == Some("diff"@),
        str_arg(args2, "operation"@) == Some("diff"@),
        str_arg(args1, "timestamp1"@) == Some(t1),
        str_arg(args1, "timestamp2"@) == Some(t2),
        str_arg(args2, "timestamp1"@) == Some(t2),
        str_arg(args2, "timestamp2"@) == Some(t1),
        read_for_diff(t1) is Ok,
        read_for_diff(t2) is Ok,
    ensures
        ({
            let s = diff_seconds(read_for_diff(t1)->Ok_0, read_for_diff(t2)->Ok_0);
            &&& timestamp_outcome(args1, now, local) == Some(Ok::<Seq<char>, Seq<char>>(diff_header(t1, t2) + diff_lines(s)))
            &&& timestamp_outcome(args2, now, local) == Some(Ok::<Seq<char>, Seq<char>>(diff_header(t2, t1) + diff_lines(s)))
        }),
{
    lemma_diff_op_distinct();
    lemma_diff_seconds_symmetric(read_for_diff(t1)->Ok_0, read_for_diff(t2)->Ok_0);
}

/// What the timestamp tool answers, with `now` the current time and `local` its
/// text in the local time zone: `Some(Ok(text))` on success, `Some(Err(text))`
/// for a tool error, and `None` where chrono panics (a format it cannot display,
/// a shift too large for a `TimeDelta`, or a result out of its range).
pub open spec fn timestamp_outcome(args: JsonValue, now: DateTimeParts, local: Seq<char>) -> Option<Result<Seq<char>, Seq<char>>> {
    match str_arg(args, "operation"@) {
        None => Some(Err("Missing 'operation' parameter"@)),
        Some(op) => if op == "now"@ {
            Some(Ok("Current time:\nUnix timestamp: "@ + signed_decimal(now.secs as int) + "\nRFC3339: "@
                + rfc3339_text(now.secs, now.nanos, 0) + "\nLocal: "@ + local))
        } else if op == "format"@ {
            match str_arg(args, "timestamp"@) {
                None => Some(Err("Missing 'timestamp' parameter for format operation"@)),
                Some(ts) => {
                    let fmt = str_arg_or(args, "format"@, default_format());
                    match read_for_format(ts, fmt) {
                        Err(e) => Some(Err(e)),
                        Ok(t) => match strftime(t.0, t.1, fmt) {
                            None => None,
                            Some(f) => Some(Ok("Formatted timestamp: "@ + f)),
                        },
                    }
                },
            }
        } else if op == "parse"@ {
            match str_arg(args, "timestamp"@) {
                None => Some(Err("Missing 'timestamp' parameter for parse operation"@)),
                Some(ts) => match read_for_parse(ts, str_arg_or(args, "format"@, default_format())) {
                    Err(e) => Some(Err(e)),
                    Ok(t) => match strftime(t.0, t.1, "%Y-%m-%d %H:%M:%S UTC"@) {
                        None => None,
                        Some(f) => Some(Ok("Parsed timestamp:\nUnix: "@ + signed_decimal(t.0 as int) + "\nRFC3339: "@
                            + rfc3339_text(t.0, t.1, 0) + "\nFormatted: "@ + f)),
                    },
                },
            }
        } else if op == "add"@ || op == "subtract"@ {
            let ts = str_arg_or(args, "timestamp"@, rfc3339_text(now.secs, now.nanos, 0));
            match (str_arg(args, "unit"@), i64_arg(args, "amount"@)) {
                (None, _) => Some(Err("Missing 'unit' parameter for arithmetic operation"@)),
                (Some(_), None) => Some(Err("Missing 'amount' parameter for arithmetic operation"@)),
                (Some(unit), Some(amount)) => match read_for_shift(ts) {
                    Err(e) => Some(Err(e)),
                    Ok(t) => match unit_seconds(unit) {
                        None => Some(Err("Unknown unit '"@ + unit + "'. Use: seconds, minutes, hours, days"@)),
                        Some(k) => {
                            let delta = amount * k;
                            if delta < -max_delta_secs() || delta > max_delta_secs() {
                                None
                            } else {
                                let moved = if op == "add"@ {
                                    time_after(t.0, t.1, delta as i64)
                                } else {
                                    time_before(t.0, t.1, delta as i64)
                                };
                                match moved {
                                    None => None,
                                    Some(r) => Some(Ok((if op == "add"@ { "Added "@ } else { "Subtracted "@ })
                                        + signed_decimal(if amount < 0 { -amount } else { amount as int }) + " "@ + unit
                                        + " to "@ + ts + "\nResult: "@ + rfc3339_text(r.0, r.1, t.2) + "\nUnix: "@
                                        + signed_decimal(r.0 as int))),
                                }
                            }
                        },
                    },
                },
            }
        } else if op == "diff"@ {
            match (str_arg(args, "timestamp1"@), str_arg(args, "timestamp2"@)) {
                (None, _) => Some(Err("Missing 'timestamp1' parameter for diff operation"@)),
                (Some(_), None) => Some(Err("Missing 'timestamp2' parameter for diff operation"@)),
                (Some(t1), Some(t2)) => match (read_for_diff(t1), read_for_diff(t2)) {
                    (Err(e), _) => Some(Err(e)),
                    (Ok(_), Err(e)) => Some(Err(e)),
                    (Ok(a), Ok(b)) => Some(Ok(diff_header(t1, t2) + diff_lines(diff_seconds(a, b)))),
                },
            }
        } else {
            Some(Err("Unknown operation '"@ + op
                + "'. Valid operations: now, format, parse, add, subtract, diff"@))
        },
    }
}

/// Whether `r` answers as `timestamp_outcome` says.
pub open spec fn answers(r: Option<Result<ToolResult, HeliosError>>, o: Option<Result<Seq<char>, Seq<char>>>) -> bool {
    match o {
        None => r is None,
        Some(Ok(t)) => r matches Some(Ok(res)) && is_success(res, t),
        Some(Err(m)) => r matches Some(Err(HeliosError::ToolError(e))) && e@ == m,
    }
}

fn tool_err(m: String) -> (r: Option<Result<ToolResult, HeliosError>>)
    ensures
        r matches Some(Err(HeliosError::ToolError(e))) && e == m,
{
    Some(Err(HeliosError::ToolError(m)))
}

fn err_text(m: &str) -> (r: Option<Result<ToolResult, HeliosError>>)
    ensures
        r matches Some(Err(HeliosError::ToolError(e))) && e@ == m@,
{
    Some(Err(HeliosError::ToolError(owned(m))))
}

fn read_for_diff_exec(ts: &str) -> (r: Result<DateTimeParts, String>)
    ensures
        match read_for_diff(ts@) {
            Ok(t) => r matches Ok(d) && d.secs == t.0 && d.nanos == t.1 && d.offset == 0
                && from_timestamp_ok(d.secs, d.nanos),
            Err(e) => r matches Err(m) && m@ == e,
        },
{
    match parse_i64_exec(ts) {
        Some(n) => match from_timestamp(n, 0) {
            Some(d) => Ok(d),
            None => Err(owned("Invalid unix timestamp")),
        },
        None => match parse_rfc3339(ts) {
            Ok(d) => Ok(DateTimeParts { secs: d.secs, nanos: d.nanos, offset: 0 }),
            Err(_) => Err(owned("Invalid timestamp format")),
        },
    }
}

/// The timestamp tool, with `now` the current time (one chrono can hold) and
/// `local` its text in the local time zone. `None` where chrono would panic.
pub fn timestamp_tool_at(args: &JsonValue, now: &DateTimeParts, local: &str) -> (r: Option<Result<ToolResult, HeliosError>>)
    requires
        from_timestamp_ok(now.secs, now.nanos),
        now.offset == 0,
    ensures
        answers(r, timestamp_outcome(*args, *now, local@)),
        diff_never_negative(*args),
{
    proof {
        lemma_diff_op_distinct();
    }
    let op = match args.str_member("operation") {
        Some(o) => o,
        None => {
            return err_text("Missing 'operation' parameter");
        },
    };
    if str_eq(op, "now") {
        let mut out = String::new();
        push_str(&mut out, "Current time:\nUnix timestamp: ");
        push_str(&mut out, i64_to_string(now.secs).as_str());
        push_str(&mut out, "\nRFC3339: ");
        push_str(&mut out, to_rfc3339(now).as_str());
        push_str(&mut out, "\nLocal: ");
        push_str(&mut out, local);
        return Some(Ok(ToolResult::success(out.as_str())));
    }
    if str_eq(op, "format") {
        let ts = match args.str_member("timestamp") {
            Some(t) => t,
            None => {
                return err_text("Missing 'timestamp' parameter for format operation");
            },
        };
        let fmt = match args.str_member("format") {
            Some(f) => f,
            None => "%Y-%m-%d %H:%M:%S",
        };
        let d = match parse_i64_exec(ts) {
            Some(n) => match from_timestamp(n, 0) {
                Some(d) => d,
                None => {
                    return err_text("Invalid unix timestamp");
                },
            },
            None => match parse_rfc3339(ts) {
                Ok(d) => DateTimeParts { secs: d.secs, nanos: d.nanos, offset: 0 },
                Err(_) => match parse_naive_utc(ts, fmt) {
                    Ok(d) => d,
                    Err(e) => {
                        let mut m = String::new();
                        push_str(&mut m, "Failed to parse timestamp: Tool error: Failed to parse timestamp: ");
                        push_str(&mut m, e.as_str());
                        return tool_err(m);
                    },
                },
            },
        };
        return match format_utc(&d, fmt) {
            None => None,
            Some(f) => {
                let mut out = String::new();
                push_str(&mut out, "Formatted timestamp: ");
                push_str(&mut out, f.as_str());
                Some(Ok(ToolResult::success(out.as_str())))
            },
        };
    }
    if str_eq(op, "parse") {
        let ts = match args.str_member("timestamp") {
            Some(t) => t,
            None => {
                return err_text("Missing 'timestamp' parameter for parse operation");
            },
        };
        let fmt = match args.str_member("format") {
            Some(f) => f,
            None => "%Y-%m-%d %H:%M:%S",
        };
        let d = match parse_rfc3339(ts) {
            Ok(d) => DateTimeParts { secs: d.secs, nanos: d.nanos, offset: 0 },
            Err(_) => match parse_naive_utc(ts, fmt) {
                Ok(d) => d,
                Err(e) => {
                    let mut m = String::new();
                    push_str(&mut m, "Failed to parse timestamp: ");
                    push_str(&mut m, e.as_str());
                    return tool_err(m);
                },
            },
        };
        return match format_utc(&d, "%Y-%m-%d %H:%M:%S UTC") {
            None => None,
            Some(f) => {
                let mut out = String::new();
                push_str(&mut out, "Parsed timestamp:\nUnix: ");
                push_str(&mut out, i64_to_string(d.secs).as_str());
                push_str(&mut out, "\nRFC3339: ");
                push_str(&mut out, to_rfc3339(&d).as_str());
                push_str(&mut out, "\nFormatted: ");
                push_str(&mut out, f.as_str());
                Some(Ok(ToolResult::success(out.as_str())))
            },
        };
    }
    let is_add = str_eq(op, "add");
    if is_add || str_eq(op, "subtract") {
        let default_ts = to_rfc3339(now);
        let ts = match args.str_member("timestamp") {
            Some(t) => t,
            None => default_ts.as_str(),
        };
        let unit = match args.str_member("unit") {
            Some(u) => u,
            None => {
                return err_text("Missing 'unit' parameter for arithmetic operation");
            },
        };
        let amount = match args.i64_member("amount") {
            Some(a) => a,
            None => {
                return err_text("Missing 'amount' parameter for arithmetic operation");
            },
        };
        let d = match parse_rfc3339(ts) {
            Ok(d) => d,
            Err(_) => match parse_i64_exec(ts) {
                Some(n) => match from_timestamp(n, 0) {
                    Some(d) => d,
                    None => {
                        return err_text("Failed to parse timestamp: Tool error: Invalid unix timestamp");
                    },
                },
                None => {
                    return err_text("Failed to parse timestamp: Tool error: Invalid timestamp format");
                },
            },
        };
        let k: i64 = if str_eq(unit, "seconds") {
            1
        } else if str_eq(unit, "minutes") {
            60
        } else if str_eq(unit, "hours") {
            3600
        } else if str_eq(unit, "days") {
            86400
        } else {
            let mut m = String::new();
            push_str(&mut m, "Unknown unit '");
            push_str(&mut m, unit);
            push_str(&mut m, "'. Use: seconds, minutes, hours, days");
            return tool_err(m);
        };
        let limit: i64 = 9223372036854775;
        if amount < -(limit / k) || amount > limit / k {
            proof {
                assert(amount * k < -max_delta_secs() || amount * k > max_delta_secs()) by (nonlinear_arith)
                    requires
                        amount < -(limit / k) || amount > limit / k,
                        k >= 1,
                        limit == max_delta_secs(),
                ;
            }
            return None;
        }
        proof {
            assert(-max_delta_secs() <= amount * k <= max_delta_secs()) by (nonlinear_arith)
                requires
                    -(limit / k) <= amount <= limit / k,
                    k >= 1,
                    limit == max_delta_secs(),
            ;
        }
        let delta = amount * k;
        let moved = if is_add {
            shift_later(&d, delta)
        } else {
            shift_earlier(&d, delta)
        };
        let m = match moved {
            None => {
                return None;
            },
            Some(m) => m,
        };
        let mut out = String::new();
        if is_add {
            push_str(&mut out, "Added ");
        } else {
            push_str(&mut out, "Subtracted ");
        }
        let magnitude: i64 = if amount < 0 { -amount } else { amount };
        push_str(&mut out, i64_to_string(magnitude).as_str());
        push_str(&mut out, " ");
        push_str(&mut out, unit);
        push_str(&mut out, " to ");
        push_str(&mut out, ts);
        push_str(&mut out, "\nResult: ");
        push_str(&mut out, to_rfc3339(&m).as_str());
        push_str(&mut out, "\nUnix: ");
        push_str(&mut out, i64_to_string(m.secs).as_str());
        return Some(Ok(ToolResult::success(out.as_str())));
    }
    if str_eq(op, "diff") {
        let t1 = match args.str_member("timestamp1") {
            Some(t) => t,
            None => {
                return err_text("Missing 'timestamp1' parameter for diff operation");
            },
        };
        let t2 = match args.str_member("timestamp2") {
            Some(t) => t,
            None => {
                return err_text("Missing 'timestamp2' parameter for diff operation");
            },
        };
        let a = match read_for_diff_exec(t1) {
            Ok(a) => a,
            Err(e) => {
                return tool_err(e);
            },
        };
        let b = match read_for_diff_exec(t2) {
            Ok(b) => b,
            Err(e) => {
                return tool_err(e);
            },
        };
        let s = if a.secs > b.secs || (a.secs == b.secs && a.nanos > b.nanos) {
            seconds_between(&a, &b)
        } else {
            seconds_between(&b, &a)
        };
        let ghost ta = (a.secs, a.nanos);
        let ghost tb = (b.secs, b.nanos);
        assert(read_for_diff(t1@) == Ok::<(i64, u32), Seq<char>>(ta));
        assert(read_for_diff(t2@) == Ok::<(i64, u32), Seq<char>>(tb));
        assert(s == diff_seconds(ta, tb));
        let mut out = String::new();
        push_str(&mut out, "Time difference between ");
        push_str(&mut out, t1);
        push_str(&mut out, " and ");
        push_str(&mut out, t2);
        push_str(&mut out, ":\n");
        push_str(&mut out, i64_to_string(s).as_str());
        push_str(&mut out, " seconds\n");
        push_str(&mut out, i64_to_string(s / 60).as_str());
        push_str(&mut out, " minutes\n");
        push_str(&mut out, i64_to_string(s / 3600).as_str());
        push_str(&mut out, " hours\n");
        push_str(&mut out, i64_to_string(s / 86400).as_str());
        push_str(&mut out, " days");
        assert(out@ =~= diff_header(t1@, t2@) + diff_lines(s));
        return Some(Ok(ToolResult::success(out.as_str())));
    }
    let mut m = String::new();
    push_str(&mut m, "Unknown operation '");
    push_str(&mut m, op);
    push_str(&mut m, "'. Valid operations: now, format, parse, add, subtract, diff");
    tool_err(m)
}

/// The timestamp tool at the current time, whatever the clock reads; `None`
/// where chrono would panic.
pub fn timestamp_tool(args: &JsonValue) -> (r: Option<Result<ToolResult, HeliosError>>)
    ensures
        exists|t: DateTimeParts, local: Seq<char>|
            t.offset == 0 && from_timestamp_ok(t.secs, t.nanos) && answers(r, #[trigger] timestamp_outcome(*args, t, local)),
        diff_never_negative(*args),
{
    let t = now();
    let d = DateTimeParts { secs: t.secs, nanos: t.nanos, offset: 0 };
    let local = local_text(&d);
    timestamp_tool_at(args, &d, local.as_str())
}


/// The operation and unit names are distinct texts.
proof fn lemma_shift_names_distinct()
    ensures
        "add"@ != "now"@,
        "add"@ != "format"@,
        "add"@ != "parse"@,
        "subtract"@ != "now"@,
        "subtract"@ != "format"@,
        "subtract"@ != "parse"@,
        "subtract"@ != "add"@,
        "minutes"@ != "seconds"@,
        "hours"@ != "seconds"@,
        "hours"@ != "minutes"@,
        "days"@ != "seconds"@,
        "days"@ != "minutes"@,
        "days"@ != "hours"@,
{
    reveal_strlit("add");
    reveal_strlit("now");
    reveal_strlit("format");
    reveal_strlit("parse");
    reveal_strlit("subtract");
    reveal_strlit("seconds");
    reveal_strlit("minutes");
    reveal_strlit("hours");
    reveal_strlit("days");
    assert("add"@[0] != "now"@[0]);
    assert("add"@.len() != "format"@.len());
    assert("add"@.len() != "parse"@.len());
    assert("subtract"@.len() != "now"@.len());
    assert("subtract"@.len() != "format"@.len());
    assert("subtract"@.len() != "parse"@.len());
    assert("subtract"@.len() != "add"@.len());
    assert("minutes"@[0] != "seconds"@[0]);
    assert("hours"@.len() != "seconds"@.len());
    assert("hours"@.len() != "minutes"@.len());
    assert("days"@.len() != "seconds"@.len());
    assert("days"@.len() != "minutes"@.len());
    assert("days"@.len() != "hours"@.len());
}

/// Time arithmetic moves by whole units: outside a leap second, `add` of `n`
/// seconds, minutes, hours or days gives the time exactly `n`, `60 * n`,
/// `3600 * n` or `86400 * n` seconds later, with the same nanoseconds and shown
/// at the timestamp's own offset; `subtract` gives the time as much earlier.
/// (Beyond what a `TimeDelta` holds, chrono panics, so such amounts are left
/// out.)
pub proof fn lemma_shift_by_unit(
    args: JsonValue,
    now: DateTimeParts,
    local: Seq<char>,
    op: Seq<char>,
    unit: Seq<char>,
    k: int,
    n: i64,
    ts: Seq<char>,
    t: (i64, u32, i32),
)
    requires
        op == "add"@ || op == "subtract"@,
        (unit == "seconds"@ && k == 1) || (unit == "minutes"@ && k == 60) || (unit == "hours"@ && k == 3600) || (
        unit == "days"@ && k == 86400),
        str_arg(args, "operation"@) == Some(op),
        str_arg(args, "unit"@) == Some(unit),
        i64_arg(args, "amount"@) == Some(n),
        str_arg(args, "timestamp"@) == Some(ts),
        read_for_shift(ts) == Ok::<(i64, u32, i32), Seq<char>>(t),
        t.1 < 1_000_000_000,
        -max_delta_secs() <= k * n <= max_delta_secs(),
        secs_in_range(if op == "add"@ { t.0 + k * n } else { t.0 - k * n }),
    ensures
        ({
            let r: int = if op == "add"@ { t.0 + k * n } else { t.0 - k * n };
            timestamp_outcome(args, now, local) == Some(Ok::<Seq<char>, Seq<char>>(
                (if op == "add"@ { "Added "@ } else { "Subtracted "@ }) + signed_decimal(if n < 0 { -n } else { n as int })
                    + " "@ + unit + " to "@ + ts + "\nResult: "@ + rfc3339_text(r as i64, t.1, t.2) + "\nUnix: "@
                    + signed_decimal(r),
            ))
        }),
{
    lemma_shift_names_distinct();
    assert(unit_seconds(unit) == Some(k));
    assert(n * k == k * n) by (nonlinear_arith);
}


/// Time arithmetic takes only seconds, minutes, hours and days: any other unit
/// is refused with the list of the four, once the timestamp has been read.
pub proof fn lemma_shift_unknown_unit(
    args: JsonValue,
    now: DateTimeParts,
    local: Seq<char>,
    op: Seq<char>,
    unit: Seq<char>,
    n: i64,
)
    requires
        op == "add"@ || op == "subtract"@,
        unit != "seconds"@ && unit != "minutes"@ && unit != "hours"@ && unit != "days"@,
        str_arg(args, "operation"@) == Some(op),
        str_arg(args, "unit"@) == Some(unit),
        i64_arg(args, "amount"@) == Some(n),
        read_for_shift(str_arg_or(args, "timestamp"@, rfc3339_text(now.secs, now.nanos, 0))) is Ok,
    ensures
        timestamp_outcome(args, now, local) == Some(Err::<Seq<char>, Seq<char>>(
            "Unknown unit '"@ + unit + "'. Use: seconds, minutes, hours, days"@,
        )),
{
    lemma_shift_names_distinct();
}

} // verus!
