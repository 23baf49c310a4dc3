use vstd::prelude::*;

use crate::numbers::all_digits;

verus! {

/// An instant read from an RFC 3339 text: milliseconds since the Unix epoch
/// and the offset from UTC, in seconds, that the text wrote.
#[derive(Clone, Copy, Debug, PartialEq, Eq, Structural)]
pub struct Timestamp {
    pub millis: i64,
    pub offset_seconds: i32,
}

/// The instant that `chrono::DateTime::parse_from_rfc3339` reads from
/// `text`, or `None` when it refuses the text.
pub uninterp spec fn rfc3339_instant(text: Seq<char>) -> Option<Timestamp>;

/// Calls `chrono::DateTime::parse_from_rfc3339` and keeps the instant and
/// the offset it read. Trusted: the result is `rfc3339_instant` of the
/// text; which texts chrono accepts is not restated here.
#[verifier::external_body]
pub(crate) fn parse_rfc3339(text: &str) -> (r: Option<Timestamp>)
    ensures
        r == rfc3339_instant(text@),
{
    match chrono::DateTime::parse_from_rfc3339(text) {
        Ok(t) => Some(Timestamp { millis: t.timestamp_millis(), offset_seconds: t.offset().local_minus_utc() }),
        Err(_) => None,
    }
}

/// What chrono writes for a time formatted with the year (`%Y`) followed
/// by `fixed` more digits of fixed width (month, day, hour, minute, second,
/// milliseconds): four year digits for the years 0 to 9999; for other years
/// a sign and at least four digits.
pub open spec fn clock_digits(s: Seq<char>, fixed: nat) -> bool {
    ||| s.len() == 4 + fixed && all_digits(s)
    ||| s.len() > 4 + fixed && (s[0] == '+' || s[0] == '-') && all_digits(s.drop_first())
}

/// What chrono writes for `%Y/%m`: the year as `clock_digits` says, `/`, and
/// the two month digits.
pub open spec fn year_month_path(s: Seq<char>) -> bool {
    &&& s.len() >= 7
    &&& s[s.len() - 3] == '/'
    &&& clock_digits(s.take(s.len() - 3), 0)
    &&& all_digits(s.skip(s.len() - 2))
}

/// `chrono::Utc::now()` formatted with `%Y%m%d%H%M%S`: the current UTC time
/// as year, month, day, hour, minute and second digits. Trusted: chrono's
/// formatter writes the year as `clock_digits` says and each other field as
/// two zero-padded digits; which time it reads depends on the clock and is
/// not stated.
#[verifier::external_body]
pub(crate) fn utc_now_compact() -> (s: String)
    ensures
        clock_digits(s@, 10),
{
    chrono::Utc::now().format("%Y%m%d%H%M%S").to_string()
}

/// `chrono::Local::now()` formatted with `%Y%m%d%H%M%S%3f`: the current
/// local time down to milliseconds. Trusted: the year is written as
/// `clock_digits` says, the other fields as two digits and the milliseconds
/// as three; which time it reads depends on the clock and the machine's time
/// zone and is not stated.
#[verifier::external_body]
pub(crate) fn local_now_compact_millis() -> (s: String)
    ensures
        clock_digits(s@, 13),
{
    chrono::Local::now().format("%Y%m%d%H%M%S%3f").to_string()
}

/// `chrono::Utc::now()` formatted with `%Y/%m`: the current UTC year and
/// month as a path. Trusted: the text has the form `year_month_path` says;
/// which month it reads depends on the clock and is not stated.
#[verifier::external_body]
pub(crate) fn utc_year_month_path() -> (s: String)
    ensures
        year_month_path(s@),
{
    chrono::Utc::now().format("%Y/%m").to_string()
}

/// `chrono::Local::now()` as an instant: milliseconds since the Unix epoch
/// and the machine's UTC offset in seconds. It depends on the clock and the
/// time zone, so nothing is stated of it.
#[verifier::external_body]
pub(crate) fn local_now() -> (t: Timestamp) {
    let now = chrono::Local::now();
    Timestamp { millis: now.timestamp_millis(), offset_seconds: now.offset().local_minus_utc() }
}

} // verus!
