//! The API key that management requests carry.
use crate::error::{AppError, ErrorView};
use crate::headers::{header_text, header_value};
use crate::text::same;
use axum::http::HeaderMap;
use vstd::prelude::*;

verus! {

/// The check of API keys.
pub struct ApiKeyAuth;

/// Why a request is turned down by its API key: the header `X-API-Key` is
/// missing or unreadable, or it holds another key.
pub open spec fn key_refusal(
    headers: axum::http::HeaderMap<axum::http::HeaderValue>,
    expected: Seq<char>,
) -> Option<ErrorView> {
    match header_value(headers, "X-API-Key"@) {
        None => Some(ErrorView::Unauthorized("Missing API key"@)),
        Some(key) => if key == expected {
            None
        } else {
            Some(ErrorView::Unauthorized("Invalid API key"@))
        },
    }
}

impl ApiKeyAuth {
    /// The key that a request carries.
    pub fn extract_api_key(headers: &HeaderMap) -> (outcome: Result<String, AppError>)
        ensures
            match outcome {
                Ok(key) => header_value(*headers, "X-API-Key"@) == Some(key@),
                Err(e) => header_value(*headers, "X-API-Key"@) is None && e@
                    == ErrorView::Unauthorized("Missing API key"@),
            },
    {
        proof {
            reveal_strlit("X-API-Key");
        }
        match header_text(headers, "X-API-Key") {
            Some(key) => Ok(key),
            None => Err(AppError::Unauthorized("Missing API key".to_owned())),
        }
    }

    /// Accepts the expected key and no other.
    pub fn validate(provided: &str, expected: &str) -> (outcome: Result<(), AppError>)
        ensures
            match outcome {
                Ok(()) => provided@ == expected@,
                Err(e) => provided@ != expected@ && e@ == ErrorView::Unauthorized(
                    "Invalid API key"@,
                ),
            },
    {
        if same(provided, expected) {
            Ok(())
        } else {
            Err(AppError::Unauthorized("Invalid API key".to_owned()))
        }
    }

    /// Accepts a request that carries the expected key.
    pub fn authorize(headers: &HeaderMap, expected: &str) -> (outcome: Result<(), AppError>)
        ensures
            match outcome {
                Ok(()) => key_refusal(*headers, expected@) is None,
                Err(e) => key_refusal(*headers, expected@) == Some(e@),
            },
    {
        match ApiKeyAuth::extract_api_key(headers) {
            Ok(key) => ApiKeyAuth::validate(key.as_str(), expected),
            Err(e) => Err(e),
        }
    }
}

} // verus!
