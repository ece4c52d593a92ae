//! The clock and the timestamp text format, as the `chrono` crate provides
//! them. These are the crate's trusted boundary for time: the two rendering
//! functions are deterministic, so their results are named and the watermark
//! store's contracts speak of those names exactly.

use vstd::prelude::*;

verus! {

/// The epoch seconds that the RFC 3339 text `s` denotes, when it parses.
pub uninterp spec fn rfc3339_seconds_of(s: Seq<char>) -> Option<i64>;

/// The RFC 3339 text denoting `t` epoch seconds in UTC, when `t` lies in the
/// representable range.
pub uninterp spec fn rfc3339_utc_of(t: i64) -> Option<Seq<char>>;

/// Relies on `chrono::DateTime::parse_from_rfc3339` and
/// `chrono::DateTime::timestamp`: parsing neither panics nor depends on
/// anything but the characters, so the result is a function of `s` alone.
#[verifier::external_body]
pub(crate) fn parse_rfc3339_seconds(s: &str) -> (r: Option<i64>)
    ensures
        r == rfc3339_seconds_of(s@),
{
    chrono::DateTime::parse_from_rfc3339(s).ok().map(|d| d.timestamp())
}

/// Relies on `chrono::DateTime::from_timestamp` and
/// `chrono::DateTime::to_rfc3339`: rendering neither panics nor depends on
/// anything but the seconds (`None` exactly on the out-of-range ones), so
/// the result is a function of `t` alone.
#[verifier::external_body]
pub(crate) fn format_rfc3339_seconds(t: i64) -> (r: Option<String>)
    ensures
        match r {
            Some(s) => rfc3339_utc_of(t) == Some(s@),
            None => rfc3339_utc_of(t) is None,
        },
{
    chrono::DateTime::<chrono::Utc>::from_timestamp(t, 0).map(|d| d.to_rfc3339())
}

/// Relies on `chrono::Utc::now` for the wall clock, reduced to epoch
/// seconds. Nothing is promised of the value: two calls may differ. Like
/// `chrono::Utc::now`, panics when the system clock reads before the epoch.
#[verifier::external_body]
pub(crate) fn now_utc_seconds() -> i64 {
    chrono::Utc::now().timestamp()
}

} // verus!
