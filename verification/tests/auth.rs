use axum::http::{HeaderMap, HeaderValue};
use chunked_uploader::auth::api_key::ApiKeyAuth;
use chunked_uploader::auth::jwt::{FoundClaims, PartTokenGenerator};
use chunked_uploader::digest::digest_of;
use chunked_uploader::error::{AppError, JwtError};

fn seconds_from_now(seconds: i64) -> u64 {
    (chrono::Utc::now().timestamp() + seconds) as u64
}

#[test]
fn test_token_generation_and_validation() {
    let generator = PartTokenGenerator::new("test-secret");
    let expires_at = chrono::Utc::now().timestamp() as u64 + 3600;

    let token = generator
        .generate_token("upload-123", 0, 1024, expires_at)
        .unwrap();

    let claims = generator.validate_token(&token).unwrap();
    assert_eq!(claims.upload_id, "upload-123");
    assert_eq!(claims.part_number, 0);
    assert_eq!(claims.expected_size, 1024);
}

#[test]
fn test_token_hash() {
    let token = "test-token";
    let hash = PartTokenGenerator::hash_token(token);
    assert!(!hash.is_empty());
    assert_eq!(hash.len(), 64); // SHA256 produces 64 hex chars
}

#[test]
fn token_claims_are_read_back_exactly() {
    let generator = PartTokenGenerator::new("s");
    let token = generator
        .generate_token("id with \"quotes\" and \u{e4}", i32::MAX, i64::MAX, u64::MAX)
        .unwrap();
    let claims = generator.validate_token(&token).unwrap();
    assert_eq!(claims.upload_id, "id with \"quotes\" and \u{e4}");
    assert_eq!(claims.part_number, i32::MAX);
    assert_eq!(claims.expected_size, i64::MAX);
    assert_eq!(claims.exp, u64::MAX);

    let token = generator
        .generate_token("", i32::MIN, i64::MIN, u64::MAX)
        .unwrap();
    let claims = generator.validate_token(&token).unwrap();
    assert_eq!(claims.upload_id, "");
    assert_eq!(claims.part_number, i32::MIN);
    assert_eq!(claims.expected_size, i64::MIN);
}

#[test]
fn token_of_another_secret_is_invalid() {
    let token = PartTokenGenerator::new("one")
        .generate_token("upload-123", 0, 1024, seconds_from_now(3600))
        .unwrap();
    let refused = PartTokenGenerator::new("two").validate_token(&token);
    assert!(matches!(refused, Err(AppError::Jwt(JwtError::Invalid))));
}

#[test]
fn malformed_token_is_invalid() {
    let generator = PartTokenGenerator::new("test-secret");
    for token in ["", "a.b", "a.b.c", "not a token"] {
        let refused = generator.validate_token(token);
        assert!(matches!(refused, Err(AppError::Jwt(JwtError::Invalid))));
    }
}

#[test]
fn token_expires_after_a_minute_of_grace() {
    let generator = PartTokenGenerator::new("test-secret");
    let late = generator
        .generate_token("upload-123", 0, 1024, seconds_from_now(-120))
        .unwrap();
    let refused = generator.validate_token(&late);
    assert!(matches!(refused, Err(AppError::Jwt(JwtError::Expired))));
    let error = refused.unwrap_err();
    assert_eq!(error.status_code(), 401);

    let graced = generator
        .generate_token("upload-123", 0, 1024, seconds_from_now(-30))
        .unwrap();
    assert!(generator.validate_token(&graced).is_ok());
}

#[test]
fn token_that_lacks_a_claim_is_invalid_at_any_time() {
    let generator = PartTokenGenerator::new("test-secret");
    for offset in [-3600, 3600] {
        let mut claims = serde_json::Map::new();
        claims.insert("upload_id".to_string(), "upload-123".into());
        claims.insert("exp".to_string(), seconds_from_now(offset).into());
        let token = jsonwebtoken::encode(
            &jsonwebtoken::Header::default(),
            &claims,
            &jsonwebtoken::EncodingKey::from_secret(b"test-secret"),
        )
        .unwrap();
        let refused = generator.validate_token(&token);
        assert!(matches!(refused, Err(AppError::Jwt(JwtError::Invalid))));
    }
    let lasting = generator.generate_token("upload-123", 0, 1024, u64::MAX).unwrap();
    assert_eq!(generator.validate_token(&lasting).unwrap().exp, u64::MAX);
}

#[test]
fn token_is_good_up_to_its_expiry_and_a_minute() {
    let generator = PartTokenGenerator::new("test-secret");
    let token = generator.generate_token("upload-123", 0, 1024, 1000).unwrap();
    for at in [i64::MIN, 0, 999, 1000, 1060] {
        assert_eq!(generator.validate_token_at(&token, at).unwrap().exp, 1000);
    }
    for at in [1061, i64::MAX] {
        let refused = generator.validate_token_at(&token, at);
        assert!(matches!(refused, Err(AppError::Jwt(JwtError::Expired))));
    }
}

#[test]
fn token_for_an_audience_is_refused() {
    let generator = PartTokenGenerator::new("test-secret");
    let mut claims = serde_json::Map::new();
    claims.insert("upload_id".to_string(), "upload-123".into());
    claims.insert("part_number".to_string(), 0.into());
    claims.insert("expected_size".to_string(), 1024.into());
    claims.insert("exp".to_string(), 1000.into());
    claims.insert("aud".to_string(), "someone".into());
    let token = jsonwebtoken::encode(
        &jsonwebtoken::Header::default(),
        &claims,
        &jsonwebtoken::EncodingKey::from_secret(b"test-secret"),
    )
    .unwrap();
    let refused = generator.validate_token_at(&token, 900);
    assert!(matches!(refused, Err(AppError::Jwt(JwtError::Invalid))));
    let refused = generator.validate_token_at(&token, 2000);
    assert!(matches!(refused, Err(AppError::Jwt(JwtError::Expired))));
}

#[test]
fn tokens_of_different_parts_differ() {
    let generator = PartTokenGenerator::new("test-secret");
    let exp = seconds_from_now(3600);
    let a = generator.generate_token("upload-123", 0, 1024, exp).unwrap();
    let b = generator.generate_token("upload-123", 1, 1024, exp).unwrap();
    let c = generator.generate_token("upload-124", 0, 1024, exp).unwrap();
    assert_ne!(a, b);
    assert_ne!(a, c);
    assert_ne!(
        PartTokenGenerator::hash_token(&a),
        PartTokenGenerator::hash_token(&b)
    );
}

fn found(
    upload_id: Option<&str>,
    part_number: Option<i64>,
    expected_size: Option<i64>,
    exp: Option<u64>,
) -> FoundClaims {
    FoundClaims {
        upload_id: upload_id.map(|s| s.to_string()),
        part_number,
        expected_size,
        exp,
    }
}

#[test]
fn incomplete_claims_are_invalid() {
    let whole = PartTokenGenerator::accept(Some(found(Some("u"), Some(3), Some(7), Some(9)))).unwrap();
    assert_eq!(whole.upload_id, "u");
    assert_eq!(whole.part_number, 3);
    assert_eq!(whole.expected_size, 7);
    assert_eq!(whole.exp, 9);

    let wrong = [
        found(None, Some(3), Some(7), Some(9)),
        found(Some("u"), None, Some(7), Some(9)),
        found(Some("u"), Some(3), None, Some(9)),
        found(Some("u"), Some(3), Some(7), None),
        found(Some("u"), Some(2147483648), Some(7), Some(9)),
        found(Some("u"), Some(-2147483649), Some(7), Some(9)),
    ];
    for claims in wrong {
        let refused = PartTokenGenerator::accept(Some(claims));
        assert!(matches!(refused, Err(AppError::Jwt(JwtError::Invalid))));
    }
    let nothing = PartTokenGenerator::accept(None);
    assert!(matches!(nothing, Err(AppError::Jwt(JwtError::Invalid))));
}

#[test]
fn digests_have_known_values() {
    assert_eq!(
        digest_of(b"abc"),
        "ba7816bf8f01cfea414140de5dae2223b00361a396177a9cb410ff61f20015ad"
    );
    assert_eq!(
        digest_of(b""),
        "e3b0c44298fc1c149afbf4c8996fb92427ae41e4649b934ca495991b7852b855"
    );
    assert_eq!(
        PartTokenGenerator::hash_token("abc"),
        "ba7816bf8f01cfea414140de5dae2223b00361a396177a9cb410ff61f20015ad"
    );
}

#[test]
fn api_key_is_compared_exactly() {
    assert!(ApiKeyAuth::validate("secret", "secret").is_ok());
    for wrong in ["", "Secret", "secret ", "secre"] {
        let refused = ApiKeyAuth::validate(wrong, "secret").unwrap_err();
        assert_eq!(refused.message(), "Invalid API key");
        assert_eq!(refused.status_code(), 401);
    }
}

#[test]
fn api_key_is_read_from_its_header() {
    let mut headers = HeaderMap::new();
    let missing = ApiKeyAuth::extract_api_key(&headers).unwrap_err();
    assert_eq!(missing.message(), "Missing API key");
    assert_eq!(missing.status_code(), 401);

    headers.insert("x-api-key", HeaderValue::from_static("secret"));
    assert_eq!(ApiKeyAuth::extract_api_key(&headers).unwrap(), "secret");
    headers.append("X-API-KEY", HeaderValue::from_static("another"));
    assert_eq!(ApiKeyAuth::extract_api_key(&headers).unwrap(), "secret");

    assert!(ApiKeyAuth::authorize(&headers, "secret").is_ok());
    let invalid = ApiKeyAuth::authorize(&headers, "other").unwrap_err();
    assert_eq!(invalid.message(), "Invalid API key");
}

#[test]
fn unreadable_api_key_counts_as_missing() {
    let mut headers = HeaderMap::new();
    headers.insert("X-API-Key", HeaderValue::from_bytes(b"caf\xc3\xa9").unwrap());
    let refused = ApiKeyAuth::extract_api_key(&headers).unwrap_err();
    assert_eq!(refused.message(), "Missing API key");

    headers.insert("X-API-Key", HeaderValue::from_bytes(b"a\tb c").unwrap());
    assert_eq!(ApiKeyAuth::extract_api_key(&headers).unwrap(), "a\tb c");
}

#[test]
fn errors_have_their_status_and_message() {
    let cases = [
        (AppError::Unauthorized("m".to_string()), 401),
        (AppError::BadRequest("m".to_string()), 400),
        (AppError::NotFound("m".to_string()), 404),
        (AppError::Conflict("m".to_string()), 409),
        (AppError::Internal("m".to_string()), 500),
        (AppError::Storage("m".to_string()), 500),
        (AppError::Database("m".to_string()), 500),
    ];
    for (error, code) in cases {
        assert_eq!(error.status_code(), code);
        assert_eq!(error.message(), "m");
    }
    assert_eq!(AppError::Jwt(JwtError::Invalid).status_code(), 401);
    assert_ne!(
        AppError::Jwt(JwtError::Invalid).message(),
        AppError::Jwt(JwtError::Expired).message()
    );
}
