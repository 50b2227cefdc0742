//! Backup time stamps: the format in which they are written into backup file
//! names, and the calls into `chrono` that read and write them.

use chrono::TimeZone;
use vstd::prelude::*;

verus! {

#[verifier::external_type_specification]
#[verifier::external_body]
pub struct ExNaiveDateTime(chrono::NaiveDateTime);

/// The format of a backup time stamp: date, `_`, time with microseconds,
/// as in `20241114_143052.123456`.
pub const STAMP_FORMAT: &'static str = "%Y%m%d_%H%M%S%.6f";

/// Whether `chrono` parses `s` with format `fmt` into a date and time.
pub uninterp spec fn naive_parse_ok(s: Seq<char>, fmt: Seq<char>) -> bool;

/// `NaiveDateTime::parse_from_str` of chrono, with the error mapped to `None`.
/// The contract claims that whether it succeeds is a function of `s` and
/// `fmt`, named `naive_parse_ok`; it says nothing of the date and time read.
#[verifier::external_body]
pub(crate) fn parse_naive(s: &str, fmt: &str) -> (r: Option<chrono::NaiveDateTime>)
    ensures
        r is Some <==> naive_parse_ok(s@, fmt@),
{
    match chrono::NaiveDateTime::parse_from_str(s, fmt) {
        Ok(dt) => Some(dt),
        Err(_) => None,
    }
}

/// `Local.from_local_datetime(dt).single()` of chrono, as microseconds since
/// the Unix epoch. The answer depends on the machine's time zone, so the
/// contract claims nothing: `None` where the local time is ambiguous or does
/// not exist.
#[verifier::external_body]
pub(crate) fn local_instant_micros(dt: &chrono::NaiveDateTime) -> (r: Option<i64>) {
    match chrono::Local.from_local_datetime(dt).single() {
        Some(t) => Some(t.timestamp_micros()),
        None => None,
    }
}

/// `Local::now()` of chrono, as local wall-clock time. The time is not known
/// in advance, so the contract claims nothing.
#[verifier::external_body]
pub(crate) fn local_now() -> (r: chrono::NaiveDateTime) {
    chrono::Local::now().naive_local()
}

/// An ASCII decimal digit.
pub open spec fn is_digit(c: char) -> bool {
    '0' <= c && c <= '9'
}

/// The form of a stamp as the stamp format writes it: the date (year, month
/// and day in digits, the year with a sign when it is outside 0 to 9999),
/// `_`, the time (hours, minutes and seconds in two digits each), `.`, and
/// six digits of microseconds.
pub open spec fn stamp_shaped(s: Seq<char>) -> bool {
    let k = s.len() - 14;
    &&& s.len() >= 22
    &&& (is_digit(s[0]) || s[0] == '+' || s[0] == '-')
    &&& (forall|i: int| 1 <= i < k ==> is_digit(#[trigger] s[i]))
    &&& s[k] == '_'
    &&& (forall|i: int| k < i < k + 7 ==> is_digit(#[trigger] s[i]))
    &&& s[k + 7] == '.'
    &&& (forall|i: int| k + 7 < i < s.len() ==> is_digit(#[trigger] s[i]))
}

/// `NaiveDateTime::format` of chrono, written out. It is called only with the
/// stamp format, which chrono always writes: the year as four digits (with a
/// sign and as many digits as needed outside 0 to 9999), month, day, hour,
/// minute and second as two digits each (a leap second as 60), the literal
/// `_`, and `.` with six digits of microseconds. The contract claims that
/// form, and that `NaiveDateTime::parse_from_str` reads the text back in the
/// same format when the year was written without a sign (from 0 to 9999:
/// the year is read as at most four digits, month to second as two each, a
/// leap second's 60 as such, and six digits of microseconds). It does not
/// claim which date and time the text shows.
#[verifier::external_body]
pub(crate) fn format_naive(dt: &chrono::NaiveDateTime, fmt: &str) -> (r: String)
    requires
        fmt@ == STAMP_FORMAT@,
    ensures
        stamp_shaped(r@),
        is_digit(r@[0]) ==> naive_parse_ok(r@, STAMP_FORMAT@),
{
    dt.format(fmt).to_string()
}

/// The current local time as a backup stamp, in the stamp format.
pub fn current_stamp() -> (r: String)
    ensures
        stamp_shaped(r@),
        is_digit(r@[0]) ==> naive_parse_ok(r@, STAMP_FORMAT@),
{
    let now = local_now();
    format_naive(&now, STAMP_FORMAT)
}

} // verus!
