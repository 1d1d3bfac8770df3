//! Points in time, as the sources spell them, and fresh ids.
use vstd::prelude::*;

verus! {

/// The RFC 3339 spelling of milliseconds since the epoch, where they are a date.
pub uninterp spec fn rfc3339_of_millis(ms: i64) -> Option<Seq<char>>;

/// `chrono::DateTime::from_timestamp_millis` and `to_rfc3339` on its result: depends on the
/// milliseconds alone; `None` where they are outside the range of dates.
#[verifier::external_body]
fn format_millis(ms: i64) -> (r: Option<String>)
    ensures
        r.deep_view() == rfc3339_of_millis(ms),
{
    chrono::DateTime::from_timestamp_millis(ms).map(|t| t.to_rfc3339())
}

/// Epoch milliseconds in the spelling every transcript uses for its timestamps.
pub fn ms_epoch_to_rfc3339(ms: i64) -> (r: Option<String>)
    ensures
        r.deep_view() == rfc3339_of_millis(ms),
{
    format_millis(ms)
}

/// The instant that an RFC 3339 text names: whole seconds since the epoch and the nanoseconds
/// within the second.
pub uninterp spec fn instant_of(text: Seq<char>) -> Option<(i64, u32)>;

/// `chrono::DateTime::parse_from_rfc3339`: whether the text names an instant, and which,
/// depends on the text alone. Two instants are ordered by their seconds, then by their
/// nanoseconds.
#[verifier::external_body]
pub(crate) fn parse_instant(text: &str) -> (r: Option<(i64, u32)>)
    ensures
        r == instant_of(text@),
{
    chrono::DateTime::parse_from_rfc3339(text).ok().map(
        |t| (t.timestamp(), t.timestamp_subsec_nanos()),
    )
}

/// The whole seconds from one instant to another, both spelled in RFC 3339.
pub uninterp spec fn seconds_between(earlier: Seq<char>, later: Seq<char>) -> i64;

/// The nanoseconds from one instant to another.
pub open spec fn nanos_between(earlier: (i64, u32), later: (i64, u32)) -> int {
    (later.0 - earlier.0) * 1_000_000_000 + (later.1 - earlier.1)
}

/// Whole seconds in nanoseconds, without the part of a second.
pub open spec fn whole_seconds(nanos: int) -> int {
    if nanos >= 0 {
        nanos / 1_000_000_000
    } else {
        -((-nanos) / 1_000_000_000)
    }
}

/// `chrono::DateTime::signed_duration_since` and `num_seconds` on the instants that two texts
/// name: depends on the texts alone, and is the difference of the two instants without its part
/// of a second. What it is where an instant lies in a leap second is left unsaid.
#[verifier::external_body]
pub(crate) fn elapsed_seconds(earlier: &str, later: &str) -> (r: Option<i64>)
    ensures
        r == (match (instant_of(earlier@), instant_of(later@)) {
            (Some(_), Some(_)) => Some(seconds_between(earlier@, later@)),
            _ => None,
        }),
        match (instant_of(earlier@), instant_of(later@), r) {
            (Some(a), Some(b), Some(s)) => a.1 < 1_000_000_000 && b.1 < 1_000_000_000 ==> s
                == whole_seconds(nanos_between(a, b)),
            _ => true,
        },
{
    let a = chrono::DateTime::parse_from_rfc3339(earlier).ok()?;
    let b = chrono::DateTime::parse_from_rfc3339(later).ok()?;
    Some(b.signed_duration_since(a).num_seconds())
}

/// The number of the day that a `YYYY-MM-DD` text names, counted from the first day of year one.
pub uninterp spec fn day_of(text: Seq<char>) -> Option<i32>;

/// `chrono::NaiveDate::parse_from_str` with `%Y-%m-%d`, the date as its number of days: depends on
/// the text alone, and a later date has a larger number.
#[verifier::external_body]
pub(crate) fn parse_day(text: &str) -> (r: Option<i32>)
    ensures
        r == day_of(text@),
{
    chrono::NaiveDate::parse_from_str(text, "%Y-%m-%d").ok().map(
        |d| chrono::Datelike::num_days_from_ce(&d),
    )
}

/// `uuid::Uuid::new_v4` in its hyphenated form: 36 characters; which ones is left to chance.
#[verifier::external_body]
pub(crate) fn random_id() -> (r: String)
    ensures
        r@.len() == 36,
{
    uuid::Uuid::new_v4().to_string()
}

} // verus!
