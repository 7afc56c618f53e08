//! Who may make a request.
use crate::auth::api_key::{key_refusal, ApiKeyAuth};
use crate::error::{AppError, ErrorView};
use crate::headers::{header_fields, header_value, is_readable};
use crate::text::lowercase;
use axum::http::HeaderMap;
use vstd::prelude::*;

verus! {

/// A request is let in exactly where its header `x-api-key` reads as the key.
pub proof fn the_key_is_the_header(
    headers: axum::http::HeaderMap<axum::http::HeaderValue>,
    key: Seq<char>,
)
    ensures
        key_refusal(headers, key) is None == (header_value(headers, "x-api-key"@) == Some(key)),
        key_refusal(headers, key) matches Some(e) ==> e is Unauthorized,
{
    lemma_header_name();
}

/// A header reads as a text exactly where there is one of its name, in lower case,
/// whose bytes are that text and are all visible ASCII, spaces or tabs.
pub proof fn headers_read_as_their_bytes(
    headers: axum::http::HeaderMap<axum::http::HeaderValue>,
    text: Seq<char>,
)
    ensures
        (header_value(headers, "x-api-key"@) == Some(text)) == (header_fields(headers).contains_key(
            "x-api-key"@,
        ) && header_fields(headers)["x-api-key"@].len() == text.len() && forall|i: int|
            0 <= i < text.len() ==> {
                let b = #[trigger] header_fields(headers)["x-api-key"@][i];
                b as char == text[i] && (32 <= b <= 126 || b == 9)
            }),
{
    lemma_header_name();
    let bytes = header_fields(headers)["x-api-key"@];
    if header_fields(headers).contains_key("x-api-key"@) && bytes.len() == text.len() && (forall|
        i: int,
    |
        0 <= i < text.len() ==> {
            let b = #[trigger] header_fields(headers)["x-api-key"@][i];
            b as char == text[i] && (32 <= b <= 126 || b == 9)
        }) {
        assert(forall|i: int| 0 <= i < bytes.len() ==> is_readable(#[trigger] bytes[i]));
        assert(Seq::new(bytes.len(), |i: int| bytes[i] as char) =~= text);
    }
    if header_value(headers, "x-api-key"@) == Some(text) {
        assert(Seq::new(bytes.len(), |i: int| bytes[i] as char) == text);
        assert forall|i: int| 0 <= i < text.len() implies ({
            let b = #[trigger] header_fields(headers)["x-api-key"@][i];
            b as char == text[i] && (32 <= b <= 126 || b == 9)
        }) by {
            assert(is_readable(bytes[i]));
            assert(Seq::new(bytes.len(), |i: int| bytes[i] as char)[i] == bytes[i] as char);
        }
    }
}

/// The key that a request carries is what its header `x-api-key` reads as; without
/// one the request is refused with 401.
pub proof fn keys_are_read_from_the_header(
    headers: &HeaderMap,
    outcome: Result<String, AppError>,
)
    requires
        call_ensures(ApiKeyAuth::extract_api_key, (headers,), outcome),
    ensures
        outcome matches Ok(key) ==> header_value(*headers, "x-api-key"@) == Some(key@),
        outcome matches Err(e) ==> header_value(*headers, "x-api-key"@) is None && e@
            == ErrorView::Unauthorized("Missing API key"@),
{
    lemma_header_name();
}

/// A key is accepted exactly where it is the expected one, character for character.
pub proof fn only_the_expected_key_is_accepted(
    provided: &str,
    expected: &str,
    outcome: Result<(), AppError>,
)
    requires
        call_ensures(ApiKeyAuth::validate, (provided, expected), outcome),
    ensures
        outcome is Ok == (provided@ == expected@),
        outcome matches Err(e) ==> e@ == ErrorView::Unauthorized("Invalid API key"@),
{
}

/// A request is let in exactly where its header `x-api-key` reads as the expected
/// key. Without the header it is told that the key is missing, with another that
/// it is invalid.
pub proof fn requests_are_let_in_by_their_key(
    headers: &HeaderMap,
    expected: &str,
    outcome: Result<(), AppError>,
)
    requires
        call_ensures(ApiKeyAuth::authorize, (headers, expected), outcome),
    ensures
        outcome is Ok == (header_value(*headers, "x-api-key"@) == Some(expected@)),
        header_value(*headers, "x-api-key"@) is None ==> (outcome matches Err(e) && e@
            == ErrorView::Unauthorized("Missing API key"@)),
        header_value(*headers, "x-api-key"@) matches Some(key) ==> key != expected@ ==> (
        outcome matches Err(e) && e@ == ErrorView::Unauthorized("Invalid API key"@)),
{
    lemma_header_name();
}

proof fn lemma_header_name()
    ensures
        lowercase("X-API-Key"@) == "x-api-key"@,
        lowercase("x-api-key"@) == "x-api-key"@,
{
    reveal_strlit("X-API-Key");
    reveal_strlit("x-api-key");
    assert(lowercase("X-API-Key"@) =~= "x-api-key"@);
    assert(lowercase("x-api-key"@) =~= "x-api-key"@);
}

} // verus!
