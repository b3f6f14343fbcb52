//! Reading dates from the text that news sources publish.

use vstd::prelude::*;
use chrono::{Datelike, Timelike};
use crate::model::Timestamp;

verus! {

/// The local date and time written in `text` in RFC 2822 form (as in RSS feeds), or
/// `None` if `text` is not such a date.
pub uninterp spec fn rfc2822_local_time(text: Seq<char>) -> Option<Timestamp>;

/// The date and time written in `text` in the strftime-like `format`, or `None` if
/// `text` does not match it or does not determine a date and time.
pub uninterp spec fn formatted_time(text: Seq<char>, format: Seq<char>) -> Option<Timestamp>;

/// Reads an RFC 2822 date (`chrono::DateTime::parse_from_rfc2822`) and keeps its
/// local date and time (`naive_local`, which for a date that parsed is always in
/// range), field by field. The result is named by `rfc2822_local_time`: it depends
/// on `text` alone.
#[verifier::external_body]
pub(crate) fn parse_rfc2822(text: &str) -> (r: Option<Timestamp>)
    ensures
        r == rfc2822_local_time(text@),
{
    match chrono::DateTime::parse_from_rfc2822(text) {
        Ok(d) => {
            let t = d.naive_local();
            Some(Timestamp { year: t.year(), month: t.month(), day: t.day(), hour: t.hour(),
                minute: t.minute(), second: t.second(), nanosecond: t.nanosecond() })
        },
        Err(_) => None,
    }
}

/// Reads a date and time in a given format (`chrono::NaiveDateTime::parse_from_str`).
/// The result is named by `formatted_time`: it depends on `text` and `format` alone.
#[verifier::external_body]
pub(crate) fn parse_formatted(text: &str, format: &str) -> (r: Option<Timestamp>)
    ensures
        r == formatted_time(text@, format@),
{
    match chrono::NaiveDateTime::parse_from_str(text, format) {
        Ok(t) => Some(Timestamp { year: t.year(), month: t.month(), day: t.day(), hour: t.hour(),
            minute: t.minute(), second: t.second(), nanosecond: t.nanosecond() }),
        Err(_) => None,
    }
}

} // verus!
