//! Timestamps read through `chrono`.

use vstd::prelude::*;

verus! {

/// The whole seconds from `start` to `end`, both RFC 3339 timestamps, as
/// `chrono` computes them (`DateTime::signed_duration_since(..).num_seconds()`
/// of the parsed instants in UTC); `None` when either does not parse.
pub uninterp spec fn rfc3339_seconds_between(start: Seq<char>, end: Seq<char>) -> Option<int>;

/// Parses two RFC 3339 timestamps and returns the whole seconds between them.
/// `chrono` represents dates within ±262,143 years of the epoch, so the span
/// stays within ±2·10^13 seconds.
#[verifier::external_body]
pub(crate) fn seconds_between_rfc3339(start: &str, end: &str) -> (r: Option<i64>)
    ensures
        match r {
            Some(n) => rfc3339_seconds_between(start@, end@) == Some(n as int) && -20_000_000_000_000
                <= n <= 20_000_000_000_000,
            None => rfc3339_seconds_between(start@, end@) is None,
        },
{
    match (chrono::DateTime::parse_from_rfc3339(start), chrono::DateTime::parse_from_rfc3339(end)) {
        (Ok(s), Ok(e)) => Some(
            e.with_timezone(&chrono::Utc).signed_duration_since(s.with_timezone(&chrono::Utc)).num_seconds(),
        ),
        _ => None,
    }
}

/// The current time in whole seconds since the Unix epoch
/// (`chrono::Utc::now().timestamp()`). It depends on the system clock, so only
/// the range that `chrono` can represent (years within ±262,142 of the common
/// era) is stated.
#[verifier::external_body]
pub(crate) fn unix_now() -> (r: i64)
    ensures
        -10_000_000_000_000 <= r <= 10_000_000_000_000,
{
    chrono::Utc::now().timestamp()
}

} // verus!
