//! Instants and their textual encodings.
//!
//! An instant is a whole number of seconds since 1970-01-01T00:00:00Z (`i64`).
//! Calendar arithmetic and the parsing of date notations are left to `chrono`;
//! everything that is decided from the resulting numbers is proved here.

use crate::text::{append_decimal, append_str, decimal, from_chars};
use vstd::prelude::*;

verus! {

/// The instant that an RFC 3339 date-and-time text denotes, if it is one.
pub uninterp spec fn rfc3339_instant(text: Seq<char>) -> Option<i64>;

/// The instant that `text` denotes when read by the strftime-style `format`
/// as a date and time without zone, taken as UTC.
pub uninterp spec fn naive_instant(text: Seq<char>, format: Seq<char>) -> Option<i64>;

/// Midnight UTC at the start of the given calendar day, if the day exists.
pub uninterp spec fn midnight_instant(year: i32, month: u32, day: u32) -> Option<i64>;

/// Whether the calendar can represent the instant `secs`.
pub uninterp spec fn instant_in_range(secs: i64) -> bool;

/// The current instant, by the system clock.
///
/// Trusted: calls `chrono::Utc::now` and keeps its whole seconds.  Nothing is
/// claimed of the value.  `chrono` panics when the system clock reads a time
/// before 1970.
#[verifier::external_body]
pub(crate) fn now() -> i64 {
    chrono::Utc::now().timestamp()
}

/// Reads an RFC 3339 date-and-time text.
///
/// Trusted: calls `chrono::DateTime::parse_from_rfc3339` and takes the whole
/// seconds of the result (`DateTime::timestamp`).  The contract only names the
/// outcome: the same text always gives the same result.
#[verifier::external_body]
pub(crate) fn parse_rfc3339(text: &str) -> (r: Option<i64>)
    ensures
        r == rfc3339_instant(text@),
{
    chrono::DateTime::parse_from_rfc3339(text).ok().map(|d| d.timestamp())
}

/// Reads a date and time without zone in the given strftime-style format, as UTC.
///
/// Trusted: calls `chrono::NaiveDateTime::parse_from_str`, then `and_utc` and
/// `timestamp`.  The contract only names the outcome.
#[verifier::external_body]
pub(crate) fn parse_naive(text: &str, format: &str) -> (r: Option<i64>)
    ensures
        r == naive_instant(text@, format@),
{
    chrono::NaiveDateTime::parse_from_str(text, format).ok().map(|d| d.and_utc().timestamp())
}

/// Midnight UTC of a calendar day.
///
/// Trusted: calls `chrono::NaiveDate::from_ymd_opt`, which is `None` for a day
/// that does not exist, then `and_hms_opt(0, 0, 0)`, `and_utc` and `timestamp`.
/// The contract only names the outcome.
#[verifier::external_body]
pub(crate) fn midnight(year: i32, month: u32, day: u32) -> (r: Option<i64>)
    ensures
        r == midnight_instant(year, month, day),
{
    chrono::NaiveDate::from_ymd_opt(year, month, day)
        .and_then(|d| d.and_hms_opt(0, 0, 0))
        .map(|dt| dt.and_utc().timestamp())
}

/// Checks that an instant given in seconds is one the calendar can represent.
///
/// Trusted: calls `chrono::DateTime::from_timestamp(secs, 0)`, which is `None`
/// when the day falls outside the supported range, and otherwise a date whose
/// `timestamp()` is `secs` again.
#[verifier::external_body]
pub(crate) fn checked_instant(secs: i64) -> (r: Option<i64>)
    ensures
        r == if instant_in_range(secs) { Some(secs) } else { None },
{
    chrono::DateTime::from_timestamp(secs, 0).map(|d| d.timestamp())
}

/// How long ago `diff` seconds was, in words; `diff` is the age in seconds
/// and negative for an instant still to come.
pub open spec fn relative_label(diff: int) -> Seq<char> {
    let mins = diff / 60;
    let hours = diff / 3600;
    let days = diff / 86400;
    if diff < 0 {
        "upcoming"@
    } else if mins < 60 {
        decimal((if mins < 1 { 1 } else { mins }) as nat) + "m ago"@
    } else if hours < 24 {
        decimal(hours as nat) + "h ago"@
    } else if days == 1 {
        "1d ago"@
    } else if days < 7 {
        decimal(days as nat) + "d ago"@
    } else if days < 30 {
        decimal((days / 7) as nat) + "w ago"@
    } else if days < 365 {
        decimal((days / 30) as nat) + "mo ago"@
    } else {
        decimal((days / 365) as nat) + "y ago"@
    }
}

/// The age of the instant `date` as seen from the instant `now`, in words.
pub open spec fn relative_date_at(date: i64, now: i64) -> Seq<char> {
    relative_label(now - date)
}

fn labelled(n: u128, unit: &str) -> (s: String)
    ensures
        s@ == decimal(n as nat) + unit@,
{
    let mut out: Vec<char> = Vec::new();
    append_decimal(&mut out, n);
    append_str(&mut out, unit);
    from_chars(&out)
}

/// The age of `date` as seen from `now`, in words.
pub fn relative_date_between(date: i64, now: i64) -> (s: String)
    ensures
        s@ == relative_date_at(date, now),
{
    if now < date {
        return "upcoming".to_owned();
    }
    let diff: u128 = (now as i128 - date as i128) as u128;
    let mins = diff / 60;
    let hours = diff / 3600;
    let days = diff / 86400;
    if mins < 60 {
        labelled(if mins < 1 { 1 } else { mins }, "m ago")
    } else if hours < 24 {
        labelled(hours, "h ago")
    } else if days == 1 {
        "1d ago".to_owned()
    } else if days < 7 {
        labelled(days, "d ago")
    } else if days < 30 {
        labelled(days / 7, "w ago")
    } else if days < 365 {
        labelled(days / 30, "mo ago")
    } else {
        labelled(days / 365, "y ago")
    }
}

/// The age of `date` as seen from the system clock, in words.
pub fn get_relative_date(date: i64) -> (s: String)
    ensures
        exists|now: i64| s@ == #[trigger] relative_date_at(date, now),
{
    let now = now();
    relative_date_between(date, now)
}

} // verus!
