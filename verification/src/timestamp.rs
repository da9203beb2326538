//! Timestamp resolution through chrono.
//!
//! Both kinds of timestamp column are carried as whole epoch seconds. A
//! fixed timestamp comes with its own offset; a floating one is a local
//! time that a caller-supplied timezone name resolves.

use vstd::prelude::*;

verus! {

/// The whole epoch second of an RFC 3339 timestamp text, `None` when the
/// text is not a well-formed RFC 3339 timestamp. Sub-second digits do not
/// move the result: the instant is truncated to the second, not rounded.
pub uninterp spec fn rfc3339_epoch_of(text: Seq<char>) -> Option<i64>;

/// Relies on `chrono::DateTime::parse_from_rfc3339` and
/// `chrono::DateTime::timestamp`, which counts whole seconds since the
/// Unix epoch, discarding the sub-second part.
#[verifier::external_body]
pub fn rfc3339_epoch(text: &str) -> (r: Option<i64>)
    ensures
        r == rfc3339_epoch_of(text@),
{
    match chrono::DateTime::parse_from_rfc3339(text) {
        Ok(dt) => Some(dt.timestamp()),
        Err(_) => None,
    }
}

/// The whole epoch second of a local timestamp text
/// `YYYY-MM-DDTHH:MM:SS.fff`, resolved in the named timezone, with UTC
/// standing in for an empty or unrecognized name. `None` when the text
/// does not match the pattern, or the local time is ambiguous or
/// nonexistent in that zone (a daylight-saving transition).
pub uninterp spec fn local_epoch_of(text: Seq<char>, zone: Seq<char>) -> Option<i64>;

/// Relies on `chrono::NaiveDateTime::parse_from_str` with the pattern
/// `%Y-%m-%dT%H:%M:%S%.3f`, on `chrono_tz::Tz`'s `FromStr` (every name it
/// does not know, the empty one included, falls back to `chrono_tz::UTC`),
/// and on `chrono::TimeZone::from_local_datetime` narrowed to a single
/// instant by `MappedLocalTime::single`.
#[verifier::external_body]
pub fn local_epoch(text: &str, zone: &str) -> (r: Option<i64>)
    ensures
        r == local_epoch_of(text@, zone@),
{
    let tz: chrono_tz::Tz = zone.parse().unwrap_or(chrono_tz::UTC);
    match chrono::NaiveDateTime::parse_from_str(text, "%Y-%m-%dT%H:%M:%S%.3f") {
        Ok(naive) => chrono::TimeZone::from_local_datetime(&tz, &naive).single().map(
            |dt| dt.timestamp(),
        ),
        Err(_) => None,
    }
}

} // verus!
