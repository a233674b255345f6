//! What the library reads of HTTP status codes and header values.

use vstd::prelude::*;
use vstd::utf8::encode_utf8;

verus! {

/// `StatusCode::is_success`: the 2xx range.
pub open spec fn is_success_status(code: u16) -> bool {
    200 <= code < 300
}

/// Whether a status code lies in the 2xx range.
pub fn status_is_success(code: u16) -> (b: bool)
    ensures
        b == is_success_status(code),
{
    200 <= code && code < 300
}

/// What `StatusCode`'s `Display` prints: the code and its canonical reason.
pub uninterp spec fn http_status_text(code: u16) -> Seq<char>;

/// Renders a status code with `StatusCode::from_u16(code)` and `to_string`.
/// `from_u16` accepts exactly the codes 100 to 999, hence the `requires`.
/// Claims only that the result is `http_status_text` of the code.
#[verifier::external_body]
pub(crate) fn status_text(code: u16) -> (s: String)
    requires
        100 <= code <= 999,
    ensures
        s@ == http_status_text(code),
{
    reqwest::StatusCode::from_u16(code).map(|c| c.to_string()).unwrap_or_default()
}

/// A byte that `HeaderValue::from_str` accepts: visible ASCII, the bytes from
/// 128 on, or a horizontal tab; never DEL.
pub open spec fn is_header_value_byte(b: u8) -> bool {
    (b >= 32 && b != 127) || b == 9
}

/// Whether every UTF-8 byte of a text is acceptable in a header value.
pub open spec fn is_header_value_text(s: Seq<char>) -> bool {
    forall|i: int| 0 <= i < encode_utf8(s).len() ==> is_header_value_byte(#[trigger] encode_utf8(s)[i])
}

/// Calls `reqwest::header::HeaderValue::from_str` and reports whether it succeeded.
/// Claims what the `http` crate's source shows: it succeeds exactly when
/// every byte of the text is acceptable.
#[verifier::external_body]
pub(crate) fn header_value_accepts(s: &str) -> (b: bool)
    ensures
        b == is_header_value_text(s@),
{
    reqwest::header::HeaderValue::from_str(s).is_ok()
}

} // verus!
