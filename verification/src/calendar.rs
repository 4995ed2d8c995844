//! Calendar facts taken from `chrono`: parsing of date strings into plain
//! numbers (seconds since the Unix epoch with the nanoseconds of the
//! second, day numbers counted from January 1 of year 1, which is day 1),
//! and printing of instants.

use chrono::Datelike;
use vstd::prelude::*;

verus! {

/// What `chrono::DateTime::parse_from_rfc3339` makes of a text: `None` when
/// the text is rejected, otherwise the instant as seconds since the Unix
/// epoch (UTC) and the nanoseconds within that second (1_000_000_000 or
/// more during a leap second), and the calendar date in the text's own
/// offset as a day number counted from January 1 of year 1 (day 1).
pub uninterp spec fn rfc3339_instant(text: Seq<char>) -> Option<(i64, u32, i32)>;

/// What `chrono::NaiveDate::parse_from_str(text, "%Y-%m-%d")` makes of a
/// text: `None` when rejected, otherwise the date as a day number counted
/// from January 1 of year 1 (day 1).
pub uninterp spec fn ymd_day(text: Seq<char>) -> Option<i32>;

/// What `chrono` prints with the format `%Y-%m-%dT%H:%M:%SZ` for the UTC
/// instant `secs` seconds after the Unix epoch plus `nanos` nanoseconds;
/// `None` when `chrono::DateTime::<Utc>::from_timestamp` refuses the pair.
pub uninterp spec fn utc_text(secs: i64, nanos: u32) -> Option<Seq<char>>;

/// Seconds beyond which no instant of a four-digit year lies, whatever its
/// offset (the years 0000 to 9999 span about ±2.6e11 s around the epoch).
pub const RFC3339_SECS_BOUND: i64 = 300_000_000_000;

/// Calls `chrono::DateTime::parse_from_rfc3339`. Claimed: the result is
/// the named value `rfc3339_instant` of the text; nothing is said of which
/// texts are accepted. Of an accepted text: its year has four digits and
/// its offset is under a day, so the seconds lie within
/// `RFC3339_SECS_BOUND`; the nanoseconds are under 2_000_000_000 (a
/// `NaiveTime` invariant); and the instant can be made again by
/// `DateTime::<Utc>::from_timestamp` (documented to round-trip with
/// `timestamp` and `timestamp_subsec_nanos`), so it can be printed.
#[verifier::external_body]
pub(crate) fn parse_rfc3339(text: &str) -> (r: Option<(i64, u32, i32)>)
    ensures
        r == rfc3339_instant(text@),
        r matches Some(t) ==> -RFC3339_SECS_BOUND <= t.0 <= RFC3339_SECS_BOUND && t.1 < 2_000_000_000
            && utc_text(t.0, t.1) is Some,
{
    match chrono::DateTime::parse_from_rfc3339(text) {
        Ok(dt) => Some((dt.timestamp(), dt.timestamp_subsec_nanos(), dt.date_naive().num_days_from_ce())),
        Err(_) => None,
    }
}

/// Calls `chrono::NaiveDate::parse_from_str` with the format `%Y-%m-%d`.
/// Claimed: the result is the named value `ymd_day` of the text.
#[verifier::external_body]
pub(crate) fn parse_ymd(text: &str) -> (r: Option<i32>)
    ensures
        r == ymd_day(text@),
{
    match chrono::NaiveDate::parse_from_str(text, "%Y-%m-%d") {
        Ok(d) => Some(d.num_days_from_ce()),
        Err(_) => None,
    }
}

pub open spec fn opt_view(o: Option<String>) -> Option<Seq<char>> {
    match o {
        Some(s) => Some(s@),
        None => None,
    }
}

/// Calls `chrono::DateTime::<Utc>::from_timestamp` and formats the result
/// as `%Y-%m-%dT%H:%M:%SZ`. Claimed: the text is the named value
/// `utc_text` of the pair, and `from_timestamp` accepts every pair whose
/// seconds lie within `RFC3339_SECS_BOUND` (far inside chrono's range of
/// years ±262143) and whose nanoseconds are under 1_000_000_000.
#[verifier::external_body]
pub(crate) fn format_utc(secs: i64, nanos: u32) -> (r: Option<String>)
    ensures
        opt_view(r) == utc_text(secs, nanos),
        -RFC3339_SECS_BOUND <= secs <= RFC3339_SECS_BOUND && nanos < 1_000_000_000 ==> r is Some,
{
    match chrono::DateTime::<chrono::Utc>::from_timestamp(secs, nanos) {
        Some(d) => Some(d.format("%Y-%m-%dT%H:%M:%SZ").to_string()),
        None => None,
    }
}

} // verus!
