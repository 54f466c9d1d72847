//! Instants, held as microseconds since the Unix epoch (UTC).

use vstd::prelude::*;

verus! {

/// The instant, in microseconds since the Unix epoch, that an RFC 3339 text
/// names, if it is one.
pub uninterp spec fn rfc3339_micros(s: Seq<char>) -> Option<i64>;

/// Relies on `chrono::Utc::now`: the current instant in microseconds since
/// the Unix epoch. Nothing is promised of its value.
#[verifier::external_body]
pub(crate) fn now_micros() -> (r: i64) {
    chrono::Utc::now().timestamp_micros()
}

/// Relies on `chrono::DateTime::parse_from_rfc3339`: the instant that an
/// RFC 3339 text names.
#[verifier::external_body]
pub(crate) fn parse_rfc3339(s: &str) -> (r: Option<i64>)
    ensures
        r == rfc3339_micros(s@),
{
    chrono::DateTime::parse_from_rfc3339(s).ok().map(|d| d.timestamp_micros())
}

} // verus!
