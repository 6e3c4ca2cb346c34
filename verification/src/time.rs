//! Date and time parsing and conversion through chrono. An instant is held
//! as Unix seconds and the nanoseconds after them.
use vstd::prelude::*;

verus! {

/// The Unix seconds and the nanoseconds after them (`timestamp()` and
/// `timestamp_subsec_nanos()`) of the RFC 3339 date-time `s`, or `None` where
/// chrono's `DateTime::parse_from_rfc3339` rejects it.
pub uninterp spec fn rfc3339_instant(s: Seq<char>) -> Option<(i64, u32)>;

/// The Unix seconds and the nanoseconds after them of the RFC 2822
/// date-time `s`, or `None` where chrono's `DateTime::parse_from_rfc2822`
/// rejects it.
pub uninterp spec fn rfc2822_instant(s: Seq<char>) -> Option<(i64, u32)>;

/// The first second of chrono's dates: the start of 1 January of the year
/// -262143.
pub const MIN_TIMESTAMP: i64 = -8334601228800;

/// The last second of chrono's dates: the end of 31 December of the year
/// 262142.
pub const MAX_TIMESTAMP: i64 = 8210266876799;

/// Whether `secs` Unix seconds fall within chrono's dates.
pub open spec fn timestamp_in_range(secs: i64) -> bool {
    MIN_TIMESTAMP <= secs <= MAX_TIMESTAMP
}

/// The seconds of an instant that may be missing.
pub open spec fn seconds_of(o: Option<(i64, u32)>) -> Option<i64> {
    match o {
        Some((s, _)) => Some(s),
        None => None,
    }
}

/// Calls `chrono::DateTime::parse_from_rfc3339(s)` and takes the Unix
/// seconds (`timestamp()`) and the nanoseconds after them
/// (`timestamp_subsec_nanos()`) of the date-time it gives. The contract
/// claims only that the result is `rfc3339_instant(s)`.
#[verifier::external_body]
pub(crate) fn parse_rfc3339(s: &str) -> (r: Option<(i64, u32)>)
    ensures
        r == rfc3339_instant(s@),
{
    chrono::DateTime::parse_from_rfc3339(s).ok().map(|dt| (dt.timestamp(), dt.timestamp_subsec_nanos()))
}

/// Calls `chrono::DateTime::parse_from_rfc2822(s)` and takes the Unix
/// seconds and the nanoseconds after them of the date-time it gives. The
/// contract claims only that the result is `rfc2822_instant(s)`.
#[verifier::external_body]
pub(crate) fn parse_rfc2822(s: &str) -> (r: Option<(i64, u32)>)
    ensures
        r == rfc2822_instant(s@),
{
    chrono::DateTime::parse_from_rfc2822(s).ok().map(|dt| (dt.timestamp(), dt.timestamp_subsec_nanos()))
}

/// Calls `chrono::DateTime::from_timestamp(secs, 0)` and takes the Unix
/// seconds of the date it gives. The contract claims that a date comes back
/// exactly where `secs` falls within chrono's dates (`from_timestamp` turns
/// the seconds into a day count and `NaiveDate` accepts the years from
/// `MIN_YEAR` to `MAX_YEAR`, -262143 to 262142), and that it is `secs`
/// itself (chrono documents that `from_timestamp` and `timestamp`
/// round-trip).
#[verifier::external_body]
pub(crate) fn from_timestamp_seconds(secs: i64) -> (r: Option<i64>)
    ensures
        r is Some <==> timestamp_in_range(secs),
        r matches Some(t) ==> t == secs,
{
    chrono::DateTime::from_timestamp(secs, 0).map(|dt| dt.timestamp())
}

} // verus!
