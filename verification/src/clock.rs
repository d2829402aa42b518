//! The calendar and the clock, as `chrono` provides them.
//!
//! Every function here that is marked `external_body` is believed, not
//! proved: its contract restates what `chrono` does.

use crate::models::{Day, Timestamp};
use chrono::Datelike;
use vstd::prelude::*;

verus! {

/// `chrono::ParseError`: why a text was not accepted. It is only carried
/// from the two parsers below to their callers, which do not read it.
#[verifier::external_type_specification]
#[verifier::external_body]
pub struct ExParseError(chrono::ParseError);

/// The local calendar date of `ts`, as `chrono::DateTime::date_naive` gives it.
pub uninterp spec fn local_date(ts: Timestamp) -> Day;

/// The RFC 3339 text of `ts`, as `chrono::DateTime::to_rfc3339` writes it.
pub uninterp spec fn rfc3339(ts: Timestamp) -> Seq<char>;

/// What `chrono::DateTime::parse_from_rfc3339` reads from `text`, if it accepts it.
pub uninterp spec fn parsed_rfc3339(text: Seq<char>) -> Option<Timestamp>;

/// What `chrono::NaiveDate::parse_from_str` reads from `text` under the
/// format `%Y-%m-%d`, if it accepts it.
pub uninterp spec fn parsed_day(text: Seq<char>) -> Option<Day>;

/// Reads the clock with `chrono::Local::now`. Nothing is claimed of the
/// result: it is whatever the machine's clock and time zone say.
#[verifier::external_body]
pub(crate) fn now() -> (ts: Timestamp) {
    let t = chrono::Local::now();
    Timestamp {
        secs: t.timestamp(),
        nanos: t.timestamp_subsec_nanos(),
        offset: t.offset().local_minus_utc(),
    }
}

/// Calls `chrono::DateTime::date_naive` on the instant `ts` seen in its own
/// offset. The contract only names the result.
#[verifier::external_body]
pub(crate) fn date_of(ts: Timestamp) -> (d: Day)
    requires
        ts.wf(),
    ensures
        d == local_date(ts),
{
    let zone = chrono::FixedOffset::east_opt(ts.offset).unwrap();
    let t = chrono::DateTime::from_timestamp(ts.secs, ts.nanos).unwrap().with_timezone(&zone);
    let d = t.date_naive();
    Day { year: d.year(), month: d.month(), day: d.day() }
}

/// Calls `chrono::DateTime::to_rfc3339` on the instant `ts` seen in its own
/// offset. The contract only names the result.
#[verifier::external_body]
pub(crate) fn rfc3339_text(ts: Timestamp) -> (text: String)
    requires
        ts.wf(),
    ensures
        text@ == rfc3339(ts),
{
    let zone = chrono::FixedOffset::east_opt(ts.offset).unwrap();
    let t = chrono::DateTime::from_timestamp(ts.secs, ts.nanos).unwrap().with_timezone(&zone);
    t.to_rfc3339()
}

/// Calls `chrono::DateTime::parse_from_rfc3339` and hands out the instant and
/// the offset it read. The contract only names the result.
#[verifier::external_body]
pub(crate) fn parse_rfc3339(text: &str) -> (r: Result<Timestamp, chrono::ParseError>)
    ensures
        r is Ok <==> parsed_rfc3339(text@) is Some,
        r matches Ok(ts) ==> parsed_rfc3339(text@) == Some(ts),
{
    let t = chrono::DateTime::parse_from_rfc3339(text)?;
    Ok(Timestamp {
        secs: t.timestamp(),
        nanos: t.timestamp_subsec_nanos(),
        offset: t.offset().local_minus_utc(),
    })
}

/// Calls `chrono::NaiveDate::parse_from_str` with the format `%Y-%m-%d`.
/// The contract only names the result.
#[verifier::external_body]
pub(crate) fn parse_day(text: &str) -> (r: Result<Day, chrono::ParseError>)
    ensures
        r is Ok <==> parsed_day(text@) is Some,
        r matches Ok(d) ==> parsed_day(text@) == Some(d),
{
    let d = chrono::NaiveDate::parse_from_str(text, "%Y-%m-%d")?;
    Ok(Day { year: d.year(), month: d.month(), day: d.day() })
}

/// The current instant, or `None` when the clock stands outside the years
/// that this library works with.
pub fn current_time() -> (r: Option<Timestamp>)
    ensures
        r matches Some(ts) ==> ts.wf(),
{
    let ts = now();
    if ts.is_valid() {
        Some(ts)
    } else {
        None
    }
}

/// Today's local date, or `None` when the clock stands outside the years
/// that this library works with.
pub fn today() -> (r: Option<Day>)
    ensures
        r matches Some(d) ==> exists|ts: Timestamp| ts.wf() && d == #[trigger] local_date(ts),
{
    match current_time() {
        Some(ts) => Some(date_of(ts)),
        None => None,
    }
}

} // verus!
