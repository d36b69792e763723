//! Dates and times written as the interface and taskwarrior write them, in a
//! time zone given by its offset from UTC.
use vstd::prelude::*;

use std::fmt::Write;

use chrono::TimeZone;

verus! {

/// `chrono`'s text for the UTC time `seconds` in the time zone `offset`
/// seconds east of UTC, in the format `format`; none where chrono cannot
/// represent the offset or the time, or cannot write the format.
pub uninterp spec fn chrono_text(seconds: int, offset: int, format: Seq<char>) -> Option<Seq<char>>;

/// `chrono::FixedOffset::east_opt(offset)`, the time `seconds` in it, and
/// its `format(format)` written into a string; a format that chrono cannot
/// write gives none. The contract names the result.
#[verifier::external_body]
fn format_in_offset(seconds: i64, offset: i32, format: &str) -> (r: Option<String>)
    ensures
        match chrono_text(seconds as int, offset as int, format@) {
            Some(t) => r matches Some(x) && x@ == t,
            None => r is None,
        },
{
    let d = chrono::FixedOffset::east_opt(offset).and_then(|z| z.timestamp_opt(seconds, 0).single())?;
    let mut out = String::new();
    match write!(out, "{}", d.format(format)) {
        Ok(()) => Some(out),
        Err(_) => None,
    }
}

/// The format of a date and time that taskwarrior reads as a literal, in
/// quotes, with the offset as `+HH:MM`.
pub open spec fn literal_format() -> Seq<char> {
    "'%Y-%m-%dT%H:%M:%S%:z'"@
}

/// A UTC time as a taskwarrior date literal in the time zone `offset`
/// seconds east of UTC, such as `'2026-03-29T08:15:00+01:00'`.
pub fn format_taskwarrior_datetime_literal(seconds: i64, offset: i32) -> (r: Option<String>)
    ensures
        match chrono_text(seconds as int, offset as int, literal_format()) {
            Some(t) => r matches Some(x) && x@ == t,
            None => r is None,
        },
{
    format_in_offset(seconds, offset, "'%Y-%m-%dT%H:%M:%S%:z'")
}

/// A UTC time as a local date and time, `YYYY-MM-DD HH:MM:SS`, in the time
/// zone `offset` seconds east of UTC.
pub fn format_local_date_time(seconds: i64, offset: i32) -> (r: Option<String>)
    ensures
        match chrono_text(seconds as int, offset as int, "%Y-%m-%d %H:%M:%S"@) {
            Some(t) => r matches Some(x) && x@ == t,
            None => r is None,
        },
{
    format_in_offset(seconds, offset, "%Y-%m-%d %H:%M:%S")
}

/// A UTC time in the format `format`, in the time zone `offset` seconds
/// east of UTC.
pub fn format_local_date(seconds: i64, offset: i32, format: &str) -> (r: Option<String>)
    ensures
        match chrono_text(seconds as int, offset as int, format@) {
            Some(t) => r matches Some(x) && x@ == t,
            None => r is None,
        },
{
    format_in_offset(seconds, offset, format)
}

} // verus!
