//! The token that the upload of a part carries.
use crate::clock::{now, Instant, LATEST};
use crate::digest::{digest_of, digest_text, is_hex_digit};
use crate::error::{AppError, ErrorView, JwtError};
use crate::text::option_view;
use jsonwebtoken::{decode, encode, DecodingKey, EncodingKey, Header, Validation};
use serde_json::Value;
use vstd::prelude::*;
use vstd::utf8::encode_utf8;

verus! {

/// What a token grants: one part of one upload, of a given size, up to a given
/// second.
#[derive(Debug)]
pub struct PartClaims {
    pub upload_id: String,
    pub part_number: i32,
    pub expected_size: i64,
    pub exp: u64,
}

/// [`PartClaims`] with its text as a sequence of characters.
#[verifier::ext_equal]
pub struct ClaimsView {
    pub upload_id: Seq<char>,
    pub part_number: i32,
    pub expected_size: i64,
    pub exp: u64,
}

impl View for PartClaims {
    type V = ClaimsView;

    open spec fn view(&self) -> ClaimsView {
        ClaimsView {
            upload_id: self.upload_id@,
            part_number: self.part_number,
            expected_size: self.expected_size,
            exp: self.exp,
        }
    }
}

/// The claims that were found in a token, each where it is there and has the
/// right type.
#[derive(Debug)]
pub struct FoundClaims {
    pub upload_id: Option<String>,
    pub part_number: Option<i64>,
    pub expected_size: Option<i64>,
    pub exp: Option<u64>,
}

/// [`FoundClaims`] with its text as a sequence of characters.
#[verifier::ext_equal]
pub struct FoundView {
    pub upload_id: Option<Seq<char>>,
    pub part_number: Option<i64>,
    pub expected_size: Option<i64>,
    pub exp: Option<u64>,
}

impl View for FoundClaims {
    type V = FoundView;

    open spec fn view(&self) -> FoundView {
        FoundView {
            upload_id: option_view(self.upload_id),
            part_number: self.part_number,
            expected_size: self.expected_size,
            exp: self.exp,
        }
    }
}

/// What is found in a token that was made of these claims.
pub open spec fn found_in(claims: ClaimsView) -> FoundView {
    FoundView {
        upload_id: Some(claims.upload_id),
        part_number: Some(claims.part_number as i64),
        expected_size: Some(claims.expected_size),
        exp: Some(claims.exp),
    }
}

/// The claims, where all were found and the part number fits its type.
pub open spec fn complete(found: FoundView) -> Option<ClaimsView> {
    match (found.upload_id, found.part_number, found.expected_size, found.exp) {
        (Some(upload_id), Some(number), Some(expected_size), Some(exp)) => if i32::MIN <= number
            <= i32::MAX {
            Some(ClaimsView { upload_id, part_number: number as i32, expected_size, exp })
        } else {
            None
        },
        _ => None,
    }
}

/// What a signed token holds: its claims, and whether it is addressed to an
/// audience, which this service is never part of.
#[verifier::ext_equal]
pub struct SignedView {
    pub found: FoundView,
    pub addressed: bool,
}

/// What a token holds that is made of these claims.
pub open spec fn made_of(claims: ClaimsView) -> SignedView {
    SignedView { found: found_in(claims), addressed: false }
}

/// What a token holds that is signed with this secret and has an `exp`; `None` of
/// any other token.
pub uninterp spec fn signed_claims(secret: Seq<char>, token: Seq<char>) -> Option<SignedView>;

/// The claims of a token that this secret signed.
pub open spec fn granted(secret: Seq<char>, token: Seq<char>) -> Option<ClaimsView> {
    match signed_claims(secret, token) {
        Some(signed) => complete(signed.found),
        None => None,
    }
}

/// For how many seconds a token is still accepted after its `exp`: the leeway that
/// `jsonwebtoken` grants by default.
pub const LEEWAY_SECS: u64 = 60;

/// A token with this `exp` is no longer accepted at the second `at`.
pub open spec fn expired(exp: u64, at: i64) -> bool {
    exp + LEEWAY_SECS < at
}

/// What is made of a token at the second `at`: the claims that it grants, or why
/// it is refused.
pub open spec fn verdict(secret: Seq<char>, token: Seq<char>, at: i64) -> Result<
    ClaimsView,
    JwtError,
> {
    match granted(secret, token) {
        None => Err(JwtError::Invalid),
        Some(claims) => if expired(claims.exp, at) {
            Err(JwtError::Expired)
        } else if signed_claims(secret, token)->0.addressed {
            Err(JwtError::Invalid)
        } else {
            Ok(claims)
        },
    }
}

/// `outcome` is what is made of the token at the second `at`.
pub open spec fn read_at(
    outcome: Result<PartClaims, AppError>,
    secret: Seq<char>,
    token: Seq<char>,
    at: i64,
) -> bool {
    match outcome {
        Ok(c) => verdict(secret, token, at) == Ok::<ClaimsView, JwtError>(c@),
        Err(e) => verdict(secret, token, at) matches Err(reason) && e@ == ErrorView::Jwt(reason),
    }
}

/// Calls `jsonwebtoken::encode` with the default header (HS256), the secret's
/// bytes as the key, and the claims as a JSON object. With such a key and such
/// claims it always succeeds, and reading the token with the same secret finds
/// the same claims and no audience.
#[verifier::external_body]
fn encode_claims(secret: &str, claims: &PartClaims) -> (outcome: Result<String, String>)
    ensures
        outcome is Ok,
        signed_claims(secret@, outcome->Ok_0@) == Some(made_of(claims@)),
{
    let mut body = serde_json::Map::new();
    body.insert("upload_id".to_string(), Value::from(claims.upload_id.as_str()));
    body.insert("part_number".to_string(), Value::from(claims.part_number));
    body.insert("expected_size".to_string(), Value::from(claims.expected_size));
    body.insert("exp".to_string(), Value::from(claims.exp));
    let key = EncodingKey::from_secret(secret.as_bytes());
    encode(&Header::default(), &body, &key).map_err(|e| e.to_string())
}

/// Calls `jsonwebtoken::decode` with the secret's bytes as the key and the
/// default validation (HS256, `exp` required), but for two things: whether `exp`
/// is past is not looked at, so that the clock has no say, and whether the token
/// is addressed to an audience only where `check_audience` says so. What it finds
/// in a token is named. That another secret finds nothing is not stated: secrets
/// that differ only in zeros at their ends are one key. Of a claim other than
/// `exp` that a token holds twice the last counts.
#[verifier::external_body]
fn decode_claims(secret: &str, token: &str, check_audience: bool) -> (found: Option<FoundClaims>)
    ensures
        match found {
            Some(f) => signed_claims(secret@, token@) matches Some(signed) && signed.found == f@
                && (check_audience ==> !signed.addressed),
            None => signed_claims(secret@, token@) matches Some(signed) ==> check_audience
                && signed.addressed,
        },
{
    let key = DecodingKey::from_secret(secret.as_bytes());
    let mut rules = Validation::default();
    rules.validate_exp = false;
    rules.validate_aud = check_audience;
    let read = decode::<serde_json::Map<String, Value>>(token, &key, &rules);
    read.ok().map(|data| FoundClaims {
        upload_id: data.claims.get("upload_id").and_then(Value::as_str).map(str::to_string),
        part_number: data.claims.get("part_number").and_then(Value::as_i64),
        expected_size: data.claims.get("expected_size").and_then(Value::as_i64),
        exp: data.claims.get("exp").and_then(Value::as_u64),
    })
}

/// Makes and reads part tokens with one secret.
pub struct PartTokenGenerator {
    secret: String,
}

impl View for PartTokenGenerator {
    type V = Seq<char>;

    closed spec fn view(&self) -> Seq<char> {
        self.secret@
    }
}

impl PartTokenGenerator {
    /// A generator with this secret.
    pub fn new(secret: &str) -> (generator: PartTokenGenerator)
        ensures
            generator@ == secret@,
    {
        PartTokenGenerator { secret: secret.to_owned() }
    }

    /// Makes the token for one part of an upload.
    pub fn generate_token(
        &self,
        upload_id: &str,
        part_number: i32,
        expected_size: i64,
        expires_at: u64,
    ) -> (outcome: Result<String, AppError>)
        ensures
            outcome matches Ok(token) && signed_claims(self@, token@) == Some(
                made_of(
                    (ClaimsView {
                        upload_id: upload_id@,
                        part_number,
                        expected_size,
                        exp: expires_at,
                    }),
                ),
            ),
    {
        let claims: PartClaims = PartClaims {
            upload_id: upload_id.to_owned(),
            part_number,
            expected_size,
            exp: expires_at,
        };
        match encode_claims(self.secret.as_str(), &claims) {
            Ok(token) => Ok(token),
            Err(e) => {
                let mut message: String = "Failed to generate token: ".to_owned();
                message.append(e.as_str());
                Err(AppError::Internal(message))
            },
        }
    }

    /// Accepts what was found in a token, where anything was and it is complete.
    pub fn accept(found: Option<FoundClaims>) -> (outcome: Result<PartClaims, AppError>)
        ensures
            match found {
                None => outcome matches Err(e) && e@ == ErrorView::Jwt(JwtError::Invalid),
                Some(f) => match complete(f@) {
                    Some(claims) => outcome matches Ok(c) && c@ == claims,
                    None => outcome matches Err(e) && e@ == ErrorView::Jwt(JwtError::Invalid),
                },
            },
    {
        let found: FoundClaims = match found {
            Some(found) => found,
            None => return Err(AppError::Jwt(JwtError::Invalid)),
        };
        match (found.upload_id, found.part_number, found.expected_size, found.exp) {
            (Some(upload_id), Some(number), Some(expected_size), Some(exp)) => {
                if number < -2147483648 || number > 2147483647 {
                    return Err(AppError::Jwt(JwtError::Invalid));
                }
                Ok(PartClaims { upload_id, part_number: number as i32, expected_size, exp })
            },
            _ => Err(AppError::Jwt(JwtError::Invalid)),
        }
    }

    /// Reads a token at the second `at`. It is accepted where it is signed with the
    /// secret, holds the claims of a part, has not expired and is addressed to no
    /// audience; the first of these that fails decides the refusal.
    pub fn validate_token_at(&self, token: &str, at: i64) -> (outcome: Result<
        PartClaims,
        AppError,
    >)
        ensures
            read_at(outcome, self@, token@, at),
    {
        let secret: &str = self.secret.as_str();
        let claims: PartClaims = match PartTokenGenerator::accept(
            decode_claims(secret, token, false),
        ) {
            Ok(claims) => claims,
            Err(e) => return Err(e),
        };
        if (claims.exp as i128) + (LEEWAY_SECS as i128) < at as i128 {
            return Err(AppError::Jwt(JwtError::Expired));
        }
        match decode_claims(secret, token, true) {
            Some(_) => Ok(claims),
            None => Err(AppError::Jwt(JwtError::Invalid)),
        }
    }

    /// Reads a token now.
    pub fn validate_token(&self, token: &str) -> (outcome: Result<PartClaims, AppError>)
        ensures
            exists|at: i64|
                0 <= at <= LATEST && #[trigger] read_at(outcome, self@, token@, at),
    {
        let time: Instant = now();
        let outcome: Result<PartClaims, AppError> = self.validate_token_at(token, time.seconds);
        assert(read_at(outcome, self@, token@, time.seconds));
        outcome
    }

    /// The digest under which a token is recorded: 64 hexadecimal digits.
    pub fn hash_token(token: &str) -> (hash: String)
        ensures
            hash@ == token_hash(token@),
            hash@.len() == 64,
            forall|i: int| 0 <= i < hash@.len() ==> is_hex_digit(#[trigger] hash@[i]),
    {
        digest_of(token.as_bytes())
    }
}

/// The digest under which a token is recorded.
pub open spec fn token_hash(token: Seq<char>) -> Seq<char> {
    digest_text(encode_utf8(token))
}

/// What was signed is read back: a token made of claims grants those claims.
pub proof fn signed_claims_are_granted(secret: Seq<char>, token: Seq<char>, claims: ClaimsView)
    requires
        signed_claims(secret, token) == Some(made_of(claims)),
    ensures
        granted(secret, token) == Some(claims),
{
}

/// A token is good until it expires and no longer. One that was made of claims is
/// read as exactly those claims up to its `exp` and for the leeway after it, and
/// from then on it is refused as expired.
pub proof fn tokens_are_good_until_they_expire(
    outcome: Result<PartClaims, AppError>,
    secret: Seq<char>,
    token: Seq<char>,
    claims: ClaimsView,
    at: i64,
)
    requires
        signed_claims(secret, token) == Some(made_of(claims)),
        read_at(outcome, secret, token, at),
    ensures
        at <= claims.exp ==> outcome is Ok,
        at > claims.exp + LEEWAY_SECS ==> outcome is Err,
        match outcome {
            Ok(c) => c@ == claims && at <= claims.exp + LEEWAY_SECS,
            Err(e) => e@ == ErrorView::Jwt(JwtError::Expired) && at > claims.exp + LEEWAY_SECS,
        },
{
    signed_claims_are_granted(secret, token, claims);
}

/// A token that was refused as expired stays refused.
pub proof fn expired_tokens_stay_expired(
    secret: Seq<char>,
    token: Seq<char>,
    at: i64,
    later: i64,
)
    requires
        at <= later,
        verdict(secret, token, at) == Err::<ClaimsView, JwtError>(JwtError::Expired),
    ensures
        verdict(secret, token, later) == Err::<ClaimsView, JwtError>(JwtError::Expired),
{
}

/// Nothing but what was signed is ever read from a token: what is accepted are
/// the claims that it grants, and a token in which no claims were signed is
/// refused at any time.
pub proof fn only_signed_claims_are_read(
    outcome: Result<PartClaims, AppError>,
    secret: Seq<char>,
    token: Seq<char>,
    at: i64,
)
    requires
        read_at(outcome, secret, token, at),
    ensures
        outcome matches Ok(c) ==> granted(secret, token) == Some(c@),
        granted(secret, token) is None ==> (outcome matches Err(e) && e@ == ErrorView::Jwt(
            JwtError::Invalid,
        )),
{
}

/// A token grants one thing only: tokens made of different claims differ.
pub proof fn tokens_tell_parts_apart(
    secret: Seq<char>,
    token_a: Seq<char>,
    claims_a: ClaimsView,
    token_b: Seq<char>,
    claims_b: ClaimsView,
)
    requires
        signed_claims(secret, token_a) == Some(made_of(claims_a)),
        signed_claims(secret, token_b) == Some(made_of(claims_b)),
        claims_a != claims_b,
    ensures
        token_a != token_b,
{
    signed_claims_are_granted(secret, token_a, claims_a);
    signed_claims_are_granted(secret, token_b, claims_b);
}

} // verus!
