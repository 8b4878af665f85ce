//! How an HTTP status code is told and rendered.

use vstd::prelude::*;
use crate::text::{decimal, decimal_text};

verus! {

/// The canonical reason phrase that the `http` crate (re-exported by
/// `reqwest`) gives a status code, if it knows one.
pub uninterp spec fn canonical_reason(code: u16) -> Option<Seq<char>>;

/// Calls `reqwest::StatusCode::from_u16` and, for a valid code,
/// `StatusCode::canonical_reason`. The contract claims that the phrase is the
/// one named `canonical_reason(code)`, and, as `from_u16` shows, that codes
/// outside 100..=999 have none.
#[verifier::external_body]
fn reason_phrase(code: u16) -> (r: Option<&'static str>)
    ensures
        r matches Some(s) ==> canonical_reason(code) == Some(s@),
        r is None ==> canonical_reason(code) is None,
        (code < 100 || code > 999) ==> r is None,
{
    match reqwest::StatusCode::from_u16(code) {
        Ok(status) => status.canonical_reason(),
        Err(_) => None,
    }
}

/// Whether `code` is a success code (200 to 299).
pub open spec fn is_success_code(code: u16) -> bool {
    200 <= code && code < 300
}

/// Whether `code` is a success code (200 to 299).
pub fn is_success(code: u16) -> (b: bool)
    ensures
        b == is_success_code(code),
{
    200 <= code && code < 300
}

/// How a status code is displayed: the number, a space, and the reason
/// phrase or `<unknown status code>`.
pub open spec fn status_text(code: u16) -> Seq<char> {
    decimal_text(code as nat) + " "@ + match canonical_reason(code) {
        Some(r) => r,
        None => "<unknown status code>"@,
    }
}

/// Renders a status code as the relay reports it, e.g. `404 Not Found`.
pub fn status_line(code: u16) -> (s: String)
    ensures
        s@ == status_text(code),
{
    let mut s = decimal(code as u64);
    s.append(" ");
    match reason_phrase(code) {
        Some(r) => s.append(r),
        None => s.append("<unknown status code>"),
    }
    s
}

} // verus!
