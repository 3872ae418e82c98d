//! The timestamp boundary: RFC 3339 parsing and canonical re-rendering
//! through chrono.

use vstd::prelude::*;

verus! {

/// The canonical RFC 3339 rendering of the timestamp written in `s`, or
/// `None` when `s` is not an RFC 3339 timestamp with an explicit
/// offset; a function of the text alone.
pub uninterp spec fn rfc3339_canon(s: Seq<char>) -> Option<Seq<char>>;

/// Relies on `chrono::DateTime::parse_from_rfc3339` and `to_rfc3339`:
/// whether text parses depends on the text alone, and a rendering this
/// pair produced parses back and re-renders unchanged, offset included.
#[verifier::external_body]
pub fn canonicalize_rfc3339(s: &str) -> (r: Option<String>)
    ensures
        (match r {
            Some(c) => rfc3339_canon(s@) == Some(c@) && rfc3339_canon(c@) == Some(c@),
            None => rfc3339_canon(s@) is None,
        }),
{
    match chrono::DateTime::parse_from_rfc3339(s) {
        Ok(d) => Some(d.to_rfc3339()),
        Err(_) => None,
    }
}

/// Relies on chrono's `Default` for `DateTime<FixedOffset>` (the Unix
/// epoch at offset zero) and `to_rfc3339`: the fallback timestamp
/// renders as below, and that rendering is canonical.
#[verifier::external_body]
pub fn epoch_rfc3339() -> (r: String)
    ensures
        r@ == "1970-01-01T00:00:00+00:00"@,
        rfc3339_canon(r@) == Some(r@),
{
    let d: chrono::DateTime<chrono::FixedOffset> = chrono::DateTime::default();
    d.to_rfc3339()
}

} // verus!
