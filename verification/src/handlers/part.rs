//! `PUT /upload/{id}/part/{n}`: upload one part.
use crate::auth::jwt::{token_hash, verdict, ClaimsView, PartClaims, PartTokenGenerator};
use crate::clock::{now, Instant, LATEST};
use crate::db::lifecycle::part_reached;
use crate::db::repository::{count_out_of_range, part_not_found, upload_not_found};
use crate::db::schema::{upload_status_text, PartStatus, Upload, UploadPart, UploadStatus};
use crate::db::tables::{part, put_part, upload, uploaded_count, Tables};
use crate::db::Database;
use crate::decimal::{decimal, push_decimal, push_decimal_unsigned};
use crate::digest::{digest_of, digest_text};
use crate::error::{AppError, ErrorView};
use crate::headers::{header_text, header_value};
use crate::text::{same, strip_prefix, without_prefix};
use axum::http::HeaderMap;
use vstd::prelude::*;

verus! {

/// The answer to the upload of a part.
#[derive(Debug)]
pub struct PartUploadResponse {
    pub upload_id: String,
    pub part_number: i32,
    pub status: String,
    pub checksum_sha256: String,
    pub uploaded_parts: i32,
    pub total_parts: i32,
}

/// A part that was found in order and is now to be stored.
#[derive(Debug)]
pub struct AcceptedPart {
    pub upload: Upload,
    pub part_number: i32,
    pub checksum_sha256: String,
}

/// The token of a request: what follows `Bearer ` in the header
/// `Authorization`.
pub open spec fn bearer_token(
    headers: axum::http::HeaderMap<axum::http::HeaderValue>,
) -> Option<Seq<char>> {
    match header_value(headers, "Authorization"@) {
        Some(value) => without_prefix(value, "Bearer "@),
        None => None,
    }
}

/// Why a part is turned down whose token grants `claims`: the token is for
/// another part, the upload or the part is unknown or closed, the token is not
/// the one that was handed out, or the body has the wrong size.
pub open spec fn body_refusal(
    t: Tables,
    claims: ClaimsView,
    token: Seq<char>,
    upload_id: Seq<char>,
    part_number: i32,
    body: Seq<u8>,
) -> Option<ErrorView> {
    if claims.upload_id != upload_id || claims.part_number != part_number {
        Some(ErrorView::Unauthorized("Token does not match upload/part"@))
    } else if upload(t, upload_id) is None {
        Some(upload_not_found(upload_id))
    } else if upload(t, upload_id)->0.status != UploadStatus::Pending {
        Some(
            ErrorView::Conflict(
                "Upload is already "@ + upload_status_text(upload(t, upload_id)->0.status),
            ),
        )
    } else if part(t, upload_id, part_number) is None {
        Some(part_not_found(upload_id, part_number))
    } else if part(t, upload_id, part_number)->0.status == PartStatus::Uploaded {
        Some(ErrorView::Conflict("Part already uploaded"@))
    } else if part(t, upload_id, part_number)->0.token_hash != token_hash(token) {
        Some(ErrorView::Unauthorized("Invalid token for this part"@))
    } else if body.len() != claims.expected_size {
        Some(
            ErrorView::BadRequest(
                "Part size mismatch: expected "@ + decimal(claims.expected_size as int) + ", got "@
                    + decimal(body.len() as int),
            ),
        )
    } else {
        None
    }
}

/// What is to be stored of a part that is in order.
pub open spec fn accepts(
    accepted: AcceptedPart,
    t: Tables,
    upload_id: Seq<char>,
    part_number: i32,
    body: Seq<u8>,
) -> bool {
    &&& Some(accepted.upload@) == upload(t, upload_id)
    &&& accepted.part_number == part_number
    &&& accepted.checksum_sha256@ == digest_text(body)
}

/// Checks the upload of a part whose token grants `claims`.
pub fn check_part(
    db: &Database,
    claims: &PartClaims,
    token: &str,
    upload_id: &str,
    part_number: i32,
    body: &[u8],
) -> (outcome: Result<AcceptedPart, AppError>)
    requires
        db.wf(),
    ensures
        match outcome {
            Ok(accepted) => body_refusal(
                db@,
                claims@,
                token@,
                upload_id@,
                part_number,
                body@,
            ) is None && accepts(accepted, db@, upload_id@, part_number, body@),
            Err(e) => body_refusal(db@, claims@, token@, upload_id@, part_number, body@) == Some(
                e@,
            ),
        },
{
    if !same(claims.upload_id.as_str(), upload_id) || claims.part_number != part_number {
        return Err(AppError::Unauthorized("Token does not match upload/part".to_owned()));
    }
    let row: Upload = match db.get_upload(upload_id) {
        Ok(row) => row,
        Err(e) => return Err(e),
    };
    if row.status != UploadStatus::Pending {
        let mut message: String = "Upload is already ".to_owned();
        let status: String = row.status.to_string();
        message.append(status.as_str());
        return Err(AppError::Conflict(message));
    }
    let part_row: UploadPart = match db.get_part(upload_id, part_number) {
        Ok(part_row) => part_row,
        Err(e) => return Err(e),
    };
    if part_row.status == PartStatus::Uploaded {
        return Err(AppError::Conflict("Part already uploaded".to_owned()));
    }
    let hash: String = PartTokenGenerator::hash_token(token);
    if !same(hash.as_str(), part_row.token_hash.as_str()) {
        return Err(AppError::Unauthorized("Invalid token for this part".to_owned()));
    }
    let length: u64 = body.len() as u64;
    if length as i128 != claims.expected_size as i128 {
        let mut message: String = "Part size mismatch: expected ".to_owned();
        push_decimal(&mut message, claims.expected_size);
        message.append(", got ");
        push_decimal_unsigned(&mut message, length);
        return Err(AppError::BadRequest(message));
    }
    Ok(AcceptedPart { upload: row, part_number, checksum_sha256: digest_of(body) })
}

/// The token that a request carries.
pub fn read_bearer_token(headers: &HeaderMap) -> (outcome: Result<String, AppError>)
    ensures
        match outcome {
            Ok(token) => bearer_token(*headers) == Some(token@),
            Err(e) => bearer_token(*headers) is None && e@ == ErrorView::Unauthorized(
                "Missing or invalid Authorization header"@,
            ),
        },
{
    proof {
        reveal_strlit("Authorization");
    }
    if let Some(value) = header_text(headers, "Authorization") {
        if let Some(token) = strip_prefix(value.as_str(), "Bearer ") {
            return Ok(token);
        }
    }
    Err(AppError::Unauthorized("Missing or invalid Authorization header".to_owned()))
}

/// A token that grants the part which a request is for.
#[derive(Debug)]
pub struct PartGrant {
    pub token: String,
    pub claims: PartClaims,
}

/// What is made of a request's token at the second `at`: the claims with which it
/// grants the part that the request is for, or why it is refused.
pub open spec fn token_verdict(
    headers: axum::http::HeaderMap<axum::http::HeaderValue>,
    jwt_secret: Seq<char>,
    upload_id: Seq<char>,
    part_number: i32,
    at: i64,
) -> Result<ClaimsView, ErrorView> {
    match bearer_token(headers) {
        None => Err(ErrorView::Unauthorized("Missing or invalid Authorization header"@)),
        Some(token) => match verdict(jwt_secret, token, at) {
            Err(reason) => Err(ErrorView::Jwt(reason)),
            Ok(claims) => if claims.upload_id != upload_id || claims.part_number != part_number {
                Err(ErrorView::Unauthorized("Token does not match upload/part"@))
            } else {
                Ok(claims)
            },
        },
    }
}

/// `outcome` is what is made of the request's token at the second `at`.
pub open spec fn token_checked(
    outcome: Result<PartGrant, AppError>,
    headers: axum::http::HeaderMap<axum::http::HeaderValue>,
    jwt_secret: Seq<char>,
    upload_id: Seq<char>,
    part_number: i32,
    at: i64,
) -> bool {
    let expected = token_verdict(headers, jwt_secret, upload_id, part_number, at);
    match outcome {
        Ok(grant) => expected == Ok::<ClaimsView, ErrorView>(grant.claims@) && bearer_token(headers)
            == Some(grant.token@),
        Err(e) => expected == Err::<ClaimsView, ErrorView>(e@),
    }
}

/// Checks the token of a request at the second `at`.
pub fn check_token_at(
    jwt_secret: &str,
    upload_id: &str,
    part_number: i32,
    headers: &HeaderMap,
    at: i64,
) -> (outcome: Result<PartGrant, AppError>)
    ensures
        token_checked(outcome, *headers, jwt_secret@, upload_id@, part_number, at),
{
    let token: String = match read_bearer_token(headers) {
        Ok(token) => token,
        Err(e) => return Err(e),
    };
    let generator: PartTokenGenerator = PartTokenGenerator::new(jwt_secret);
    let claims: PartClaims = match generator.validate_token_at(token.as_str(), at) {
        Ok(claims) => claims,
        Err(e) => return Err(e),
    };
    if !same(claims.upload_id.as_str(), upload_id) || claims.part_number != part_number {
        return Err(AppError::Unauthorized("Token does not match upload/part".to_owned()));
    }
    Ok(PartGrant { token, claims })
}

/// Checks the token of a request, now. This comes before anything is looked up.
pub fn check_token(
    jwt_secret: &str,
    upload_id: &str,
    part_number: i32,
    headers: &HeaderMap,
) -> (outcome: Result<PartGrant, AppError>)
    ensures
        exists|at: i64|
            0 <= at <= LATEST && #[trigger] token_checked(
                outcome,
                *headers,
                jwt_secret@,
                upload_id@,
                part_number,
                at,
            ),
{
    let time: Instant = now();
    let outcome: Result<PartGrant, AppError> = check_token_at(
        jwt_secret,
        upload_id,
        part_number,
        headers,
        time.seconds,
    );
    assert(token_checked(
        outcome,
        *headers,
        jwt_secret@,
        upload_id@,
        part_number,
        time.seconds,
    ));
    outcome
}

/// Why the upload of a part is turned down at the second `at`, if it is.
pub open spec fn upload_refusal(
    t: Tables,
    jwt_secret: Seq<char>,
    upload_id: Seq<char>,
    part_number: i32,
    headers: axum::http::HeaderMap<axum::http::HeaderValue>,
    body: Seq<u8>,
    at: i64,
) -> Option<ErrorView> {
    match token_verdict(headers, jwt_secret, upload_id, part_number, at) {
        Err(e) => Some(e),
        Ok(claims) => body_refusal(
            t,
            claims,
            bearer_token(headers)->0,
            upload_id,
            part_number,
            body,
        ),
    }
}

/// `outcome` is what comes of the upload of a part at the second `at`.
pub open spec fn upload_checked(
    outcome: Result<AcceptedPart, AppError>,
    t: Tables,
    jwt_secret: Seq<char>,
    upload_id: Seq<char>,
    part_number: i32,
    headers: axum::http::HeaderMap<axum::http::HeaderValue>,
    body: Seq<u8>,
    at: i64,
) -> bool {
    let refusal = upload_refusal(t, jwt_secret, upload_id, part_number, headers, body, at);
    match outcome {
        Ok(accepted) => refusal is None && accepts(accepted, t, upload_id, part_number, body),
        Err(e) => refusal == Some(e@),
    }
}

/// Checks the upload of a part at the second `at`. Where it is in order, the part
/// is to be stored and then recorded.
pub fn upload_part_at(
    db: &Database,
    jwt_secret: &str,
    upload_id: &str,
    part_number: i32,
    headers: &HeaderMap,
    body: &[u8],
    at: i64,
) -> (outcome: Result<AcceptedPart, AppError>)
    requires
        db.wf(),
    ensures
        upload_checked(
            outcome,
            db@,
            jwt_secret@,
            upload_id@,
            part_number,
            *headers,
            body@,
            at,
        ),
{
    let grant: PartGrant = match check_token_at(jwt_secret, upload_id, part_number, headers, at) {
        Ok(grant) => grant,
        Err(e) => return Err(e),
    };
    check_part(db, &grant.claims, grant.token.as_str(), upload_id, part_number, body)
}

/// Checks the upload of a part, now.
pub fn upload_part(
    db: &Database,
    jwt_secret: &str,
    upload_id: &str,
    part_number: i32,
    headers: &HeaderMap,
    body: &[u8],
) -> (outcome: Result<AcceptedPart, AppError>)
    requires
        db.wf(),
    ensures
        exists|at: i64|
            0 <= at <= LATEST && #[trigger] upload_checked(
                outcome,
                db@,
                jwt_secret@,
                upload_id@,
                part_number,
                *headers,
                body@,
                at,
            ),
{
    let time: Instant = now();
    let outcome: Result<AcceptedPart, AppError> = upload_part_at(
        db,
        jwt_secret,
        upload_id,
        part_number,
        headers,
        body,
        time.seconds,
    );
    assert(upload_checked(
        outcome,
        db@,
        jwt_secret@,
        upload_id@,
        part_number,
        *headers,
        body@,
        time.seconds,
    ));
    outcome
}

/// The tables after a stored part was recorded.
pub open spec fn with_part_recorded(
    t: Tables,
    upload_id: Seq<char>,
    part_number: i32,
    checksum: Seq<char>,
    at: i64,
) -> Tables {
    match part(t, upload_id, part_number) {
        Some(p) => put_part(t, part_reached(p, PartStatus::Uploaded, Some(checksum), at)),
        None => t,
    }
}

/// Records a part that was stored.
pub fn record_part_at(db: &mut Database, accepted: &AcceptedPart, at: i64) -> (outcome: Result<
    PartUploadResponse,
    AppError,
>)
    requires
        old(db).wf(),
    ensures
        final(db).wf(),
        final(db)@ == with_part_recorded(
            old(db)@,
            accepted.upload.id@,
            accepted.part_number,
            accepted.checksum_sha256@,
            at,
        ),
        ({
            let count = uploaded_count(final(db)@.parts, accepted.upload.id@);
            match outcome {
                Ok(response) => {
                    &&& response.upload_id@ == accepted.upload.id@
                    &&& response.part_number == accepted.part_number
                    &&& response.status@ == "uploaded"@
                    &&& response.checksum_sha256@ == accepted.checksum_sha256@
                    &&& response.uploaded_parts == count
                    &&& response.total_parts == accepted.upload.total_parts
                },
                Err(e) => count > i32::MAX && e@ == count_out_of_range(count),
            }
        }),
{
    db.update_part_status(
        accepted.upload.id.as_str(),
        accepted.part_number,
        PartStatus::Uploaded,
        Some(accepted.checksum_sha256.as_str()),
        at,
    );
    match db.count_uploaded_parts(accepted.upload.id.as_str()) {
        Ok(uploaded_parts) => Ok(
            PartUploadResponse {
                upload_id: accepted.upload.id.clone(),
                part_number: accepted.part_number,
                status: "uploaded".to_owned(),
                checksum_sha256: accepted.checksum_sha256.clone(),
                uploaded_parts,
                total_parts: accepted.upload.total_parts,
            },
        ),
        Err(e) => Err(e),
    }
}

/// Records a part that was stored, now.
pub fn record_part(db: &mut Database, accepted: &AcceptedPart) -> (outcome: Result<
    PartUploadResponse,
    AppError,
>)
    requires
        old(db).wf(),
    ensures
        final(db).wf(),
        exists|at: i64|
            0 <= at <= LATEST && final(db)@ == #[trigger] with_part_recorded(
                old(db)@,
                accepted.upload.id@,
                accepted.part_number,
                accepted.checksum_sha256@,
                at,
            ),
        ({
            let count = uploaded_count(final(db)@.parts, accepted.upload.id@);
            match outcome {
                Ok(response) => {
                    &&& response.upload_id@ == accepted.upload.id@
                    &&& response.part_number == accepted.part_number
                    &&& response.status@ == "uploaded"@
                    &&& response.checksum_sha256@ == accepted.checksum_sha256@
                    &&& response.uploaded_parts == count
                    &&& response.total_parts == accepted.upload.total_parts
                },
                Err(e) => count > i32::MAX && e@ == count_out_of_range(count),
            }
        }),
{
    let at: Instant = now();
    record_part_at(db, accepted, at.seconds)
}

} // verus!
