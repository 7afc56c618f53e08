//! Reading request headers.
use crate::text::{all_ascii, lowercase};
use axum::http::HeaderMap;
use vstd::prelude::*;

verus! {

/// The headers of a request, as the HTTP library holds them.
#[verifier::external_type_specification]
#[verifier::external_body]
#[verifier::reject_recursive_types(T)]
pub struct ExHeaderMap<T>(axum::http::HeaderMap<T>);

/// One header's value, as the HTTP library holds it.
#[verifier::external_type_specification]
#[verifier::external_body]
pub struct ExHeaderValue(axum::http::HeaderValue);

/// What a header map holds: under each name, in lower case, the bytes of the
/// first value that was given for it.
pub uninterp spec fn header_fields(
    headers: axum::http::HeaderMap<axum::http::HeaderValue>,
) -> Map<Seq<char>, Seq<u8>>;

/// A byte that a readable header value may hold: visible ASCII, the space and
/// the tab.
pub open spec fn is_readable(b: u8) -> bool {
    32 <= b < 127 || b == 9
}

/// The value of a header as text, where it is there and readable.
pub open spec fn header_value(
    headers: axum::http::HeaderMap<axum::http::HeaderValue>,
    name: Seq<char>,
) -> Option<Seq<char>> {
    let fields = header_fields(headers);
    if fields.contains_key(lowercase(name)) {
        let bytes = fields[lowercase(name)];
        if forall|i: int| 0 <= i < bytes.len() ==> is_readable(#[trigger] bytes[i]) {
            Some(Seq::new(bytes.len(), |i: int| bytes[i] as char))
        } else {
            None
        }
    } else {
        None
    }
}

/// Calls `HeaderMap::get` and `HeaderValue::to_str`. The first finds the first
/// value under a name, in whatever case the name is written; the second gives
/// its bytes as characters where all of them are readable, and fails otherwise.
#[verifier::external_body]
pub(crate) fn header_text(headers: &HeaderMap, name: &str) -> (text: Option<String>)
    requires
        all_ascii(name@),
    ensures
        match text {
            Some(t) => header_value(*headers, name@) == Some(t@),
            None => header_value(*headers, name@) is None,
        },
        text is Some ==> header_fields(*headers).contains_key(lowercase(name@)),
{
    headers.get(name).and_then(|v| v.to_str().ok()).map(|s| s.to_string())
}

} // verus!
