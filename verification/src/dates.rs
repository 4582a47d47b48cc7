//! The date parser: turns a user-supplied date string into a UTC instant
//! (seconds since the Unix epoch), trying a fixed priority order of
//! formats, and the date gate that decides whether a commit's timestamp
//! lies inside the supplied bounds.

use vstd::prelude::*;

use crate::errors::HistoryError;

verus! {

/// What chrono reads out of an RFC 3339 / ISO 8601 timestamp with an
/// explicit offset, as seconds since the Unix epoch; `None` where the text
/// is not such a timestamp.
pub uninterp spec fn rfc3339_epoch(s: Seq<char>) -> Option<i64>;

/// What chrono reads out of an RFC 2822 timestamp, as seconds since the
/// Unix epoch; `None` where the text is not such a timestamp.
pub uninterp spec fn rfc2822_epoch(s: Seq<char>) -> Option<i64>;

/// What chrono reads out of a `%a, %d %b %Y %H:%M:%S %Z` timestamp, as
/// seconds since the Unix epoch; `None` where the text does not match.
pub uninterp spec fn zoned_epoch(s: Seq<char>) -> Option<i64>;

/// What chrono reads out of a bare `YYYY-MM-DD` date, taken as UTC
/// midnight, as seconds since the Unix epoch; `None` where the text does
/// not match.
pub uninterp spec fn day_epoch(s: Seq<char>) -> Option<i64>;

/// What chrono reads out of a `YYYY-MM-DD HH:MM:SS` timestamp, taken as
/// UTC, as seconds since the Unix epoch; `None` where the text does not
/// match.
pub uninterp spec fn day_time_epoch(s: Seq<char>) -> Option<i64>;

/// The `YYYY-MM-DD HH:MM:SS` rendering of an epoch instant in UTC, or the
/// empty sequence where the instant lies outside chrono's range.
pub uninterp spec fn datetime_text(t: i64) -> Seq<char>;

/// The RFC 3339 rendering of an epoch instant in UTC (`Z` suffix), or the
/// empty sequence where the instant lies outside chrono's range.
pub uninterp spec fn rfc3339_text(t: i64) -> Seq<char>;

/// Relies on chrono's `DateTime::parse_from_rfc3339` and
/// `DateTime::timestamp`: the parse accepts exactly the RFC 3339
/// timestamps, and the result depends on the text alone.
#[verifier::external_body]
fn chrono_rfc3339_epoch(s: &str) -> (r: Option<i64>)
    ensures
        r == rfc3339_epoch(s@),
{
    chrono::DateTime::parse_from_rfc3339(s).ok().map(|d| d.timestamp())
}

/// Relies on chrono's `DateTime::parse_from_rfc2822` and
/// `DateTime::timestamp`: the parse accepts exactly the RFC 2822
/// timestamps, and the result depends on the text alone.
#[verifier::external_body]
fn chrono_rfc2822_epoch(s: &str) -> (r: Option<i64>)
    ensures
        r == rfc2822_epoch(s@),
{
    chrono::DateTime::parse_from_rfc2822(s).ok().map(|d| d.timestamp())
}

/// Relies on chrono's `DateTime::parse_from_str` with the format
/// `%a, %d %b %Y %H:%M:%S %Z`: the result depends on the text alone.
#[verifier::external_body]
fn chrono_zoned_epoch(s: &str) -> (r: Option<i64>)
    ensures
        r == zoned_epoch(s@),
{
    chrono::DateTime::parse_from_str(s, "%a, %d %b %Y %H:%M:%S %Z").ok().map(|d| d.timestamp())
}

/// Relies on chrono's `NaiveDate::parse_from_str` with the format
/// `%Y-%m-%d`, extended to midnight UTC: the result depends on the text
/// alone.
#[verifier::external_body]
fn chrono_day_epoch(s: &str) -> (r: Option<i64>)
    ensures
        r == day_epoch(s@),
{
    chrono::NaiveDate::parse_from_str(s, "%Y-%m-%d")
        .ok()
        .and_then(|d| d.and_hms_opt(0, 0, 0))
        .map(|dt| dt.and_utc().timestamp())
}

/// Relies on chrono's `NaiveDateTime::parse_from_str` with the format
/// `%Y-%m-%d %H:%M:%S`, taken as UTC: the result depends on the text
/// alone.
#[verifier::external_body]
fn chrono_day_time_epoch(s: &str) -> (r: Option<i64>)
    ensures
        r == day_time_epoch(s@),
{
    chrono::NaiveDateTime::parse_from_str(s, "%Y-%m-%d %H:%M:%S")
        .ok()
        .map(|dt| dt.and_utc().timestamp())
}

/// Relies on chrono's `DateTime::from_timestamp` and the strftime
/// formatter with `%Y-%m-%d %H:%M:%S`: the result depends on the instant
/// alone.
#[verifier::external_body]
pub(crate) fn format_datetime(t: i64) -> (r: String)
    ensures
        r@ == datetime_text(t),
{
    match chrono::DateTime::from_timestamp(t, 0) {
        Some(d) => d.format("%Y-%m-%d %H:%M:%S").to_string(),
        None => String::new(),
    }
}

/// Relies on chrono's `DateTime::from_timestamp` and `to_rfc3339_opts`
/// with a `Z` suffix: the result depends on the instant alone.
#[verifier::external_body]
pub(crate) fn format_rfc3339(t: i64) -> (r: String)
    ensures
        r@ == rfc3339_text(t),
{
    match chrono::DateTime::from_timestamp(t, 0) {
        Some(d) => d.to_rfc3339_opts(chrono::SecondsFormat::AutoSi, true),
        None => String::new(),
    }
}

/// The instant a date string denotes: the first of the supported formats
/// that accepts it, in priority order; `None` where none accepts it.
pub open spec fn parse_date_spec(s: Seq<char>) -> Option<i64> {
    if rfc3339_epoch(s) is Some {
        rfc3339_epoch(s)
    } else if rfc2822_epoch(s) is Some {
        rfc2822_epoch(s)
    } else if zoned_epoch(s) is Some {
        zoned_epoch(s)
    } else if day_epoch(s) is Some {
        day_epoch(s)
    } else {
        day_time_epoch(s)
    }
}

/// Parses a date string, trying the supported formats in priority order:
/// offset-aware RFC 3339, RFC 2822, `%a, %d %b %Y %H:%M:%S %Z`, bare
/// `YYYY-MM-DD` (UTC midnight), `YYYY-MM-DD HH:MM:SS` (UTC).
pub fn parse_date(s: &str) -> (r: Result<i64, HistoryError>)
    ensures
        match parse_date_spec(s@) {
            Some(t) => r matches Ok(v) && v == t,
            None => r matches Err(e) && e matches HistoryError::InvalidDateFormat(d) && d@ == s@,
        },
{
    if let Some(t) = chrono_rfc3339_epoch(s) {
        return Ok(t);
    }
    if let Some(t) = chrono_rfc2822_epoch(s) {
        return Ok(t);
    }
    if let Some(t) = chrono_zoned_epoch(s) {
        return Ok(t);
    }
    if let Some(t) = chrono_day_epoch(s) {
        return Ok(t);
    }
    if let Some(t) = chrono_day_time_epoch(s) {
        return Ok(t);
    }
    Err(HistoryError::InvalidDateFormat(s.to_owned()))
}

/// The view of an optional borrowed string.
pub open spec fn opt_view(s: Option<&str>) -> Option<Seq<char>> {
    match s {
        Some(x) => Some(x@),
        None => None,
    }
}

/// The upper-bound half of the date gate.
pub open spec fn until_gate(ts: i64, until: Option<Seq<char>>) -> Option<bool> {
    match until {
        Some(u) => match parse_date_spec(u) {
            Some(t1) => Some(ts <= t1),
            None => None,
        },
        None => Some(true),
    }
}

/// Whether a commit timestamp passes the supplied bounds: `Some(true)` to
/// keep it, `Some(false)` to drop it, `None` where the first bound that
/// had to be read is not a valid date. The `since` bound is read first,
/// and the `until` bound only for a commit not already dropped.
pub open spec fn date_gate(ts: i64, since: Option<Seq<char>>, until: Option<Seq<char>>) -> Option<
    bool,
> {
    match since {
        Some(ss) => match parse_date_spec(ss) {
            Some(t0) => if ts < t0 {
                Some(false)
            } else {
                until_gate(ts, until)
            },
            None => None,
        },
        None => until_gate(ts, until),
    }
}

/// The bound text that could not be read, where one could not.
pub open spec fn bad_date_text(since: Option<Seq<char>>, until: Option<Seq<char>>) -> Seq<char> {
    match since {
        Some(ss) => if parse_date_spec(ss) is None {
            ss
        } else {
            match until {
                Some(u) => u,
                None => Seq::empty(),
            }
        },
        None => match until {
            Some(u) => u,
            None => Seq::empty(),
        },
    }
}

/// Decides the date gate for one commit timestamp.
pub fn passes_date(ts: i64, since: Option<&str>, until: Option<&str>) -> (r: Result<
    bool,
    HistoryError,
>)
    ensures
        match date_gate(ts, opt_view(since), opt_view(until)) {
            Some(b) => r matches Ok(v) && v == b,
            None => r matches Err(e) && e matches HistoryError::InvalidDateFormat(d) && d@
                == bad_date_text(opt_view(since), opt_view(until)),
        },
{
    if let Some(ss) = since {
        match parse_date(ss) {
            Ok(t0) => {
                if ts < t0 {
                    return Ok(false);
                }
            },
            Err(e) => {
                return Err(e);
            },
        }
    }
    if let Some(u) = until {
        match parse_date(u) {
            Ok(t1) => {
                return Ok(ts <= t1);
            },
            Err(e) => {
                return Err(e);
            },
        }
    }
    Ok(true)
}

} // verus!
