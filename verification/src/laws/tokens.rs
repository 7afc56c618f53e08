//! What becomes of a part token.
use crate::auth::jwt::{signed_claims, FoundClaims, PartClaims, PartTokenGenerator};
use crate::digest::digest_text;
use crate::error::{AppError, ErrorView, JwtError};
use crate::text::option_view;
use vstd::prelude::*;
use vstd::utf8::encode_utf8;

verus! {

/// A token is read as exactly what it was made of up to its second of expiry and
/// for a minute after it, with the secret that made it. From then on it is refused
/// as expired.
pub proof fn made_tokens_are_read_until_they_expire(
    maker: &PartTokenGenerator,
    upload_id: &str,
    part_number: i32,
    expected_size: i64,
    expires_at: u64,
    made: Result<String, AppError>,
    reader: &PartTokenGenerator,
    token: &str,
    at: i64,
    read: Result<PartClaims, AppError>,
)
    requires
        call_ensures(
            PartTokenGenerator::generate_token,
            (maker, upload_id, part_number, expected_size, expires_at),
            made,
        ),
        made matches Ok(text) ==> token@ == text@,
        reader@ == maker@,
        call_ensures(PartTokenGenerator::validate_token_at, (reader, token, at), read),
    ensures
        made is Ok,
        at <= expires_at + 60 ==> (read matches Ok(claims) && claims.upload_id@ == upload_id@
            && claims.part_number == part_number && claims.expected_size == expected_size
            && claims.exp == expires_at),
        at > expires_at + 60 ==> (read matches Err(e) && e@ == ErrorView::Jwt(JwtError::Expired)),
{
}

/// Nothing is read from a token but what was signed into it with the reader's
/// secret: every claim of a part, a second of expiry no more than a minute past,
/// and no audience.
pub proof fn only_what_was_signed_is_read(
    reader: &PartTokenGenerator,
    token: &str,
    at: i64,
    read: Result<PartClaims, AppError>,
)
    requires
        call_ensures(PartTokenGenerator::validate_token_at, (reader, token, at), read),
    ensures
        read matches Ok(claims) ==> (signed_claims(reader@, token@) matches Some(signed) && {
            &&& signed.found.upload_id == Some(claims.upload_id@)
            &&& signed.found.part_number == Some(claims.part_number as i64)
            &&& signed.found.expected_size == Some(claims.expected_size)
            &&& signed.found.exp == Some(claims.exp)
            &&& at <= claims.exp + 60
            &&& !signed.addressed
        }),
        read matches Err(e) ==> e@ is Jwt,
        signed_claims(reader@, token@) is None ==> (read matches Err(e) && e@ == ErrorView::Jwt(
            JwtError::Invalid,
        )),
{
}

/// A token that was refused at some time is refused at every later time.
pub proof fn refused_tokens_stay_refused(
    reader: &PartTokenGenerator,
    token: &str,
    at: i64,
    read: Result<PartClaims, AppError>,
    later: i64,
    read_later: Result<PartClaims, AppError>,
)
    requires
        call_ensures(PartTokenGenerator::validate_token_at, (reader, token, at), read),
        call_ensures(PartTokenGenerator::validate_token_at, (reader, token, later), read_later),
        at <= later,
        read is Err,
    ensures
        read_later is Err,
{
}

/// What was found in a token is accepted where every claim of a part was found and
/// the part's number is in range, and then as it was found.
pub proof fn complete_claims_are_accepted(
    found: Option<FoundClaims>,
    outcome: Result<PartClaims, AppError>,
)
    requires
        call_ensures(PartTokenGenerator::accept, (found,), outcome),
    ensures
        outcome is Ok == (found matches Some(f) && f.upload_id is Some && (
        f.part_number matches Some(n) && -2147483648 <= n <= 2147483647)
            && f.expected_size is Some && f.exp is Some),
        outcome matches Ok(claims) ==> {
            let f = found->0;
            &&& option_view(f.upload_id) == Some(claims.upload_id@)
            &&& f.part_number == Some(claims.part_number as i64)
            &&& f.expected_size == Some(claims.expected_size)
            &&& f.exp == Some(claims.exp)
        },
        outcome matches Err(e) ==> e@ == ErrorView::Jwt(JwtError::Invalid),
{
}

/// A token is recorded by the digest of its own bytes: 64 digits from `0` to `f`.
pub proof fn tokens_are_recorded_by_their_digest(token: &str, hash: String)
    requires
        call_ensures(PartTokenGenerator::hash_token, (token,), hash),
    ensures
        hash@ == digest_text(encode_utf8(token@)),
        hash@.len() == 64,
        forall|i: int|
            0 <= i < hash@.len() ==> '0' <= #[trigger] hash@[i] <= '9' || 'a' <= hash@[i] <= 'f',
{
}

/// A token is made and read with the secret that the generator was given.
pub proof fn generators_keep_their_secret(secret: &str, generator: PartTokenGenerator)
    requires
        call_ensures(PartTokenGenerator::new, (secret,), generator),
    ensures
        generator@ == secret@,
{
}

/// Read now, a token gives nothing but what was signed into it, and one that this
/// secret did not sign is refused as invalid.
pub proof fn tokens_are_read_as_signed_now(
    reader: &PartTokenGenerator,
    token: &str,
    read: Result<PartClaims, AppError>,
)
    requires
        call_ensures(PartTokenGenerator::validate_token, (reader, token), read),
    ensures
        read matches Ok(claims) ==> (signed_claims(reader@, token@) matches Some(signed) && {
            &&& signed.found.upload_id == Some(claims.upload_id@)
            &&& signed.found.part_number == Some(claims.part_number as i64)
            &&& signed.found.expected_size == Some(claims.expected_size)
            &&& signed.found.exp == Some(claims.exp)
            &&& !signed.addressed
        }),
        signed_claims(reader@, token@) is None ==> (read matches Err(e) && e@ == ErrorView::Jwt(
            JwtError::Invalid,
        )),
        read matches Err(e) ==> e@ is Jwt,
{
}

} // verus!
