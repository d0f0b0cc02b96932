//! Wall-clock readings and timestamp rendering.
//!
//! Timestamps are carried as UTC seconds since the epoch. Rendering and
//! parsing go through the chrono crate behind named results: the text of
//! a timestamp is a function of the timestamp alone.

use vstd::prelude::*;

verus! {

/// Timestamps the renderers accept: from the epoch to the end of year
/// 9999, the range RFC 3339 text can carry.
pub open spec fn ts_in_range(ts: i64) -> bool {
    0 <= ts < 253402300800
}

/// The RFC 3339 rendering of a timestamp.
pub uninterp spec fn rfc3339_of(ts: i64) -> Seq<char>;

/// The timestamp an RFC 3339 text denotes, if any, at second precision.
pub uninterp spec fn rfc3339_parse_of(s: Seq<char>) -> Option<i64>;

/// The compact stamp `YYYYMMDD_HHMMSS` of a timestamp, used to name
/// snapshot directories.
pub uninterp spec fn compact_stamp_of(ts: i64) -> Seq<char>;

/// Relies on `std::time::SystemTime::now` and chrono's conversion from
/// it: the current UTC time in seconds. The clock is the machine's, so
/// nothing is promised of the value; the conversion is total, even for
/// clocks set before the epoch.
#[verifier::external_body]
pub fn now_ts() -> i64 {
    chrono::DateTime::<chrono::Utc>::from(std::time::SystemTime::now()).timestamp()
}

/// Clamps an arbitrary clock reading into the renderable range.
pub fn clamp_ts(ts: i64) -> (r: i64)
    ensures
        ts_in_range(r),
        ts_in_range(ts) ==> r == ts,
{
    if ts < 0 {
        0
    } else if ts >= 253402300800 {
        253402300799
    } else {
        ts
    }
}

/// Relies on `chrono::DateTime::<Utc>::from_timestamp` and `to_rfc3339`:
/// renders a timestamp as RFC 3339 text. `parse_from_rfc3339` of that
/// text denotes the same second, which the second clause records.
#[verifier::external_body]
pub fn format_rfc3339(ts: i64) -> (r: String)
    requires
        ts_in_range(ts),
    ensures
        r@ == rfc3339_of(ts),
        rfc3339_parse_of(r@) == Some(ts),
{
    chrono::DateTime::<chrono::Utc>::from_timestamp(ts, 0).unwrap().to_rfc3339()
}

/// Relies on `chrono::DateTime::parse_from_rfc3339`: the timestamp an
/// RFC 3339 text denotes, truncated to seconds.
#[verifier::external_body]
pub fn parse_rfc3339(s: &str) -> (r: Option<i64>)
    ensures
        r == rfc3339_parse_of(s@),
{
    match chrono::DateTime::parse_from_rfc3339(s) {
        Ok(dt) => Some(dt.timestamp()),
        Err(_) => None,
    }
}

/// Relies on `chrono::DateTime::<Utc>::from_timestamp` and
/// `DateTime::format` with `%Y%m%d_%H%M%S`: the compact stamp of a
/// timestamp.
#[verifier::external_body]
pub fn format_compact_ts(ts: i64) -> (r: String)
    requires
        ts_in_range(ts),
    ensures
        r@ == compact_stamp_of(ts),
{
    chrono::DateTime::<chrono::Utc>::from_timestamp(ts, 0).unwrap().format("%Y%m%d_%H%M%S").to_string()
}

} // verus!
