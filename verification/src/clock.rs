//! What the machine supplies: the current time, read from the system clock
//! through chrono, and random identifiers from uuid.

use vstd::prelude::*;
use crate::timestamp::{from_timestamp_ok, rfc3339_text};

verus! {

/// A point in time: whole seconds since the Unix epoch and the nanoseconds after them.
#[derive(Debug, Clone, Copy)]
pub struct Timestamp {
    /// Seconds since 1970-01-01T00:00:00Z.
    pub secs: i64,
    /// Nanoseconds past `secs`.
    pub nanos: u32,
}

/// Whether `t` is the RFC 3339 text, at offset 0, of some time chrono can hold.
pub open spec fn is_utc_time_text(t: Seq<char>) -> bool {
    exists|secs: i64, nanos: u32| from_timestamp_ok(secs, nanos) && t == #[trigger] rfc3339_text(secs, nanos, 0)
}

/// Whether `c` is a lower-case hexadecimal digit.
pub open spec fn is_lower_hex(c: char) -> bool {
    ('0' <= c <= '9') || ('a' <= c <= 'f')
}

/// Whether `s` is a version-4 UUID as text: 36 characters, hyphens at 8, 13, 18
/// and 23, lower-case hexadecimal digits elsewhere, the version digit `4` at 14
/// and one of `8`, `9`, `a`, `b` (the variant) at 19.
pub open spec fn is_uuid_v4_text(s: Seq<char>) -> bool {
    &&& s.len() == 36
    &&& forall|i: int| 0 <= i < 36 ==> if i == 8 || i == 13 || i == 18 || i == 23 {
        s[i] == '-'
    } else {
        is_lower_hex(#[trigger] s[i])
    }
    &&& s[14] == '4'
    &&& (s[19] == '8' || s[19] == '9' || s[19] == 'a' || s[19] == 'b')
}

/// `chrono::Utc::now()`, as seconds and nanoseconds since the epoch. The value
/// depends on the system clock; only that it is a time chrono can hold (every
/// `DateTime` round-trips through its timestamp) is promised.
#[verifier::external_body]
pub(crate) fn now() -> (t: Timestamp)
    ensures
        from_timestamp_ok(t.secs, t.nanos),
{
    let dt = chrono::Utc::now();
    Timestamp { secs: dt.timestamp(), nanos: dt.timestamp_subsec_nanos() }
}

/// `chrono::Utc::now().to_rfc3339()`: the current time as RFC 3339 text at
/// offset 0. Which time it is depends on the system clock; it is one chrono can hold.
#[verifier::external_body]
pub(crate) fn now_rfc3339() -> (s: String)
    ensures
        is_utc_time_text(s@),
{
    chrono::Utc::now().to_rfc3339()
}

/// `uuid::Uuid::new_v4()` in its hyphenated text form: a random identifier. Its
/// digits are chance; its form is fixed (`is_uuid_v4_text`).
#[verifier::external_body]
pub(crate) fn new_uuid() -> (s: String)
    ensures
        is_uuid_v4_text(s@),
{
    uuid::Uuid::new_v4().to_string()
}

} // verus!
