//! The wall clock, and the text of a point in time.
use vstd::prelude::*;

verus! {

/// Calls `chrono::Utc::now`, read as milliseconds since the Unix epoch: the time
/// at the call, of which only that it is not before the epoch is stated
/// (chrono's `now` panics on a system clock set before 1970).
#[verifier::external_body]
pub(crate) fn now_millis() -> (r: i64)
    ensures
        r >= 0,
{
    chrono::Utc::now().timestamp_millis()
}

/// How merx writes a point in time: ISO 8601 in UTC, with milliseconds.
pub open spec fn timestamp_format() -> Seq<char> {
    "%Y-%m-%dT%H:%M:%S%.3fZ"@
}

/// The UTC time `ms` milliseconds after the Unix epoch written by chrono with
/// the format `format` (`None` when chrono cannot represent the time).
pub uninterp spec fn utc_timestamp_text(ms: i64, format: Seq<char>) -> Option<Seq<char>>;

/// Calls `chrono::DateTime::<Utc>::from_timestamp_millis` and formats the time
/// with `format`. The text is named by `utc_timestamp_text`. The format is the
/// one merx uses (chrono's formatting panics on a malformed format). Stated of
/// the result, from chrono's documentation: only a number of milliseconds outside
/// the years chrono represents (far beyond 0 to 9999) gives `None`.
#[verifier::external_body]
pub(crate) fn utc_timestamp(ms: i64, format: &str) -> (r: Option<String>)
    requires
        format@ == timestamp_format(),
    ensures
        r.deep_view() == utc_timestamp_text(ms, format@),
        0 <= ms < 253_402_300_800_000 ==> r is Some,
{
    match chrono::DateTime::from_timestamp_millis(ms) {
        Some(t) => Some(t.format(format).to_string()),
        None => None,
    }
}

} // verus!
