use vstd::prelude::*;

verus! {

/// A fresh random id: `uuid::Uuid::new_v4`, written in its hyphenated form.
/// The contract claims the length and the 8-4-4-4-12 shape of hexadecimal
/// digits of that form; which id comes out is random and is not claimed.
#[verifier::external_body]
pub(crate) fn uuid() -> (r: String)
    ensures
        r@.len() == 36,
        crate::server::artifacts::is_hyphenated_uuid(r@),
{
    uuid::Uuid::new_v4().to_string()
}

/// The current time in RFC 3339 with milliseconds and a `Z`
/// (`chrono::Utc::now().to_rfc3339_opts`). Nothing is claimed of the value.
#[verifier::external_body]
pub(crate) fn iso_now() -> (r: String) {
    chrono::Utc::now().to_rfc3339_opts(chrono::SecondsFormat::Millis, true)
}

/// A time in nanoseconds since the epoch written in RFC 3339, UTC, with
/// milliseconds and a `Z`.
pub uninterp spec fn spec_rfc3339_millis(ns: i64) -> Seq<char>;

/// `chrono::DateTime::from_timestamp_nanos` (defined for every `i64`), then
/// `to_rfc3339_opts` with milliseconds and `Z`.
#[verifier::external_body]
pub(crate) fn rfc3339_millis(ns: i64) -> (r: String)
    ensures
        r@ == spec_rfc3339_millis(ns),
{
    chrono::DateTime::from_timestamp_nanos(ns).to_rfc3339_opts(chrono::SecondsFormat::Millis, true)
}

/// A time in nanoseconds since the epoch as `DateTime::to_rfc3339` writes it
/// (UTC, a `+00:00` offset, as many fractional digits as it needs).
pub uninterp spec fn spec_rfc3339_auto(ns: i64) -> Seq<char>;

/// `chrono::DateTime::from_timestamp_nanos`, then `to_rfc3339`.
#[verifier::external_body]
pub(crate) fn rfc3339_auto(ns: i64) -> (r: String)
    ensures
        r@ == spec_rfc3339_auto(ns),
{
    chrono::DateTime::from_timestamp_nanos(ns).to_rfc3339()
}

/// The instant that an RFC 3339 text names, in microseconds since the epoch;
/// none when `DateTime::parse_from_rfc3339` refuses the text.
pub uninterp spec fn spec_parse_rfc3339_micros(text: Seq<char>) -> Option<i64>;

/// `chrono::DateTime::parse_from_rfc3339`, then `timestamp_micros`.
#[verifier::external_body]
pub(crate) fn parse_rfc3339_micros(text: &str) -> (r: Option<i64>)
    ensures
        r == spec_parse_rfc3339_micros(text@),
{
    match chrono::DateTime::parse_from_rfc3339(text) {
        Ok(d) => Some(d.timestamp_micros()),
        Err(_) => None,
    }
}

} // verus!
