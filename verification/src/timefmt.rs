//! Formatting file times for the catalog: a Unix timestamp becomes the
//! RFC 3339 text of its UTC instant.

use vstd::prelude::*;

verus! {

/// What formatting a Unix timestamp as RFC 3339 yields: nothing for an
/// out-of-range timestamp, otherwise the text of that UTC instant — a
/// function of the seconds alone. Named only; the calendar arithmetic is
/// stated nowhere here.
pub uninterp spec fn rfc3339_of(secs: i64) -> Option<Seq<char>>;

/// Relies on `chrono::DateTime::<chrono::Utc>::from_timestamp` (which
/// yields nothing for a timestamp outside chrono's representable range)
/// and `chrono::DateTime::to_rfc3339`.
#[verifier::external_body]
fn rfc3339_opt(secs: i64) -> (r: Option<String>)
    ensures
        r.deep_view() == rfc3339_of(secs),
{
    chrono::DateTime::<chrono::Utc>::from_timestamp(secs, 0).map(|dt| dt.to_rfc3339())
}

/// The RFC 3339 text of a Unix timestamp, empty when the timestamp lies
/// outside the representable range.
pub fn timestamp_rfc3339(secs: i64) -> (r: String)
    ensures
        r@ == (match rfc3339_of(secs) {
            Some(s) => s,
            None => Seq::<char>::empty(),
        }),
{
    match rfc3339_opt(secs) {
        Some(s) => s,
        None => String::new(),
    }
}

} // verus!
