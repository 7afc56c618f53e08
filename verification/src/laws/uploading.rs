//! What the upload of a part does.
use crate::auth::jwt::{signed_claims, token_hash, PartClaims};
use crate::clock::LATEST;
use crate::db::Database;
use crate::db::lifecycle::part_reached;
use crate::db::schema::{PartStatus, UploadStatus};
use crate::db::tables::{lemma_part_with_key, lemma_put_part, part, upload};
use crate::decimal::decimal;
use crate::digest::digest_text;
use crate::error::{AppError, ErrorView, JwtError};
use crate::handlers::laws::recording_a_part_counts_it;
use crate::handlers::part::{
    bearer_token, check_part, check_token, check_token_at, read_bearer_token, record_part,
    record_part_at, upload_checked, upload_part, upload_part_at, with_part_recorded, AcceptedPart,
    PartGrant, PartUploadResponse,
};
use crate::headers::header_value;
use crate::laws::counting::{arrived, uploaded_parts_are_the_arrived};
use crate::text::lowercase;
use axum::http::HeaderMap;
use vstd::prelude::*;

verus! {

/// A part is accepted only if its body is exactly as long as the size that its
/// token grants, the token is for this part and is the one that was handed out
/// for it, the upload is pending and the part has not arrived before. What is
/// accepted is this part of this upload, with the digest of the body.
pub proof fn accepted_parts_are_in_order(
    db: &Database,
    claims: &PartClaims,
    token: &str,
    upload_id: &str,
    part_number: i32,
    body: &[u8],
    outcome: Result<AcceptedPart, AppError>,
)
    requires
        call_ensures(
            check_part,
            (db, claims, token, upload_id, part_number, body),
            outcome,
        ),
        outcome is Ok,
    ensures
        body@.len() == claims.expected_size,
        claims.upload_id@ == upload_id@,
        claims.part_number == part_number,
        upload(db@, upload_id@) matches Some(u) && u.status == UploadStatus::Pending,
        part(db@, upload_id@, part_number) matches Some(p) && p.status == PartStatus::Pending
            && p.token_hash == token_hash(token@),
        Some(outcome->Ok_0.upload@) == upload(db@, upload_id@),
        outcome->Ok_0.part_number == part_number,
        outcome->Ok_0.checksum_sha256@ == digest_text(body@),
{
}

/// A part that is in order is accepted.
pub proof fn parts_in_order_are_accepted(
    db: &Database,
    claims: &PartClaims,
    token: &str,
    upload_id: &str,
    part_number: i32,
    body: &[u8],
    outcome: Result<AcceptedPart, AppError>,
)
    requires
        call_ensures(
            check_part,
            (db, claims, token, upload_id, part_number, body),
            outcome,
        ),
        body@.len() == claims.expected_size,
        claims.upload_id@ == upload_id@,
        claims.part_number == part_number,
        upload(db@, upload_id@) matches Some(u) && u.status == UploadStatus::Pending,
        part(db@, upload_id@, part_number) matches Some(p) && p.status == PartStatus::Pending
            && p.token_hash == token_hash(token@),
    ensures
        outcome is Ok,
{
}

/// What is wrong with a part decides how it is refused, the first of these
/// counting: a token for another part 401, an unknown upload 404, one that no
/// longer takes parts 409, an unknown part 404, one that has arrived before 409,
/// a token that was not handed out for it 401, a body of another size 400.
pub proof fn refusals_tell_what_is_wrong(
    db: &Database,
    claims: &PartClaims,
    token: &str,
    upload_id: &str,
    part_number: i32,
    body: &[u8],
    outcome: Result<AcceptedPart, AppError>,
)
    requires
        call_ensures(
            check_part,
            (db, claims, token, upload_id, part_number, body),
            outcome,
        ),
    ensures
        claims.upload_id@ != upload_id@ || claims.part_number != part_number ==> (
        outcome matches Err(e) && e@ == ErrorView::Unauthorized(
            "Token does not match upload/part"@,
        )),
        claims.upload_id@ == upload_id@ && claims.part_number == part_number ==> {
            match upload(db@, upload_id@) {
                None => outcome matches Err(e) && e@ == ErrorView::NotFound(
                    "Upload "@ + upload_id@ + " not found"@,
                ),
                Some(u) => if u.status != UploadStatus::Pending {
                    &&& outcome matches Err(e) && e@ is Conflict
                    &&& u.status == UploadStatus::Finalizing ==> outcome->Err_0@
                        == ErrorView::Conflict("Upload is already "@ + "finalizing"@)
                    &&& u.status == UploadStatus::Complete ==> outcome->Err_0@
                        == ErrorView::Conflict("Upload is already "@ + "complete"@)
                    &&& u.status == UploadStatus::Failed ==> outcome->Err_0@
                        == ErrorView::Conflict("Upload is already "@ + "failed"@)
                } else {
                    match part(db@, upload_id@, part_number) {
                        None => outcome matches Err(e) && e@ == ErrorView::NotFound(
                            "Part "@ + decimal(part_number as int) + " not found for upload "@
                                + upload_id@,
                        ),
                        Some(p) => if p.status != PartStatus::Pending {
                            outcome matches Err(e) && e@ == ErrorView::Conflict(
                                "Part already uploaded"@,
                            )
                        } else if p.token_hash != token_hash(token@) {
                            outcome matches Err(e) && e@ == ErrorView::Unauthorized(
                                "Invalid token for this part"@,
                            )
                        } else {
                            body@.len() != claims.expected_size ==> (outcome matches Err(e) && e@
                                == ErrorView::BadRequest(
                                "Part size mismatch: expected "@ + decimal(
                                    claims.expected_size as int,
                                ) + ", got "@ + decimal(body@.len() as int),
                            ))
                        },
                    }
                },
            }
        },
{
}

proof fn lemma_bearer(
    headers: axum::http::HeaderMap<axum::http::HeaderValue>,
    token: Seq<char>,
)
    ensures
        (bearer_token(headers) == Some(token)) == (header_value(headers, "authorization"@) == Some(
            "Bearer "@ + token,
        )),
        bearer_token(headers) matches Some(found) ==> header_value(headers, "authorization"@)
            == Some("Bearer "@ + found),
{
    reveal_strlit("Authorization");
    reveal_strlit("authorization");
    assert(lowercase("Authorization"@) =~= "authorization"@);
    assert(lowercase("authorization"@) =~= "authorization"@);
    let prefix = "Bearer "@;
    if bearer_token(headers) is Some {
        let value = header_value(headers, "authorization"@)->0;
        assert(value =~= prefix + value.skip(prefix.len() as int));
    }
    if header_value(headers, "authorization"@) == Some(prefix + token) {
        let value = prefix + token;
        assert(value.skip(prefix.len() as int) =~= token);
        assert(value.take(prefix.len() as int) =~= prefix);
    }
}

/// Nothing but what a token grants is accepted with it. The request carries the
/// token behind `Bearer ` in its header `authorization`; what was signed into the
/// token is this upload, this part, the length of this body and a second that is
/// no more than a minute past.
pub proof fn accepted_parts_were_granted(
    db: &Database,
    jwt_secret: &str,
    upload_id: &str,
    part_number: i32,
    headers: &HeaderMap,
    body: &[u8],
    at: i64,
    outcome: Result<AcceptedPart, AppError>,
    token: Seq<char>,
)
    requires
        call_ensures(
            upload_part_at,
            (db, jwt_secret, upload_id, part_number, headers, body, at),
            outcome,
        ),
        outcome is Ok,
        header_value(*headers, "authorization"@) == Some("Bearer "@ + token),
    ensures
        signed_claims(jwt_secret@, token) matches Some(signed) && {
            &&& signed.found.upload_id == Some(upload_id@)
            &&& signed.found.part_number == Some(part_number as i64)
            &&& signed.found.expected_size matches Some(size) && size == body@.len()
            &&& signed.found.exp matches Some(exp) && at <= exp + 60
            &&& !signed.addressed
        },
        upload(db@, upload_id@) matches Some(u) && u.status == UploadStatus::Pending,
        part(db@, upload_id@, part_number) matches Some(p) && p.status == PartStatus::Pending
            && p.token_hash == token_hash(token),
        Some(outcome->Ok_0.upload@) == upload(db@, upload_id@),
        outcome->Ok_0.part_number == part_number,
        outcome->Ok_0.checksum_sha256@ == digest_text(body@),
{
    lemma_bearer(*headers, token);
}

/// A request without a token behind `Bearer ` in its header `authorization` is
/// refused with 401, whatever else it holds.
pub proof fn requests_without_a_token_are_refused(
    db: &Database,
    jwt_secret: &str,
    upload_id: &str,
    part_number: i32,
    headers: &HeaderMap,
    body: &[u8],
    at: i64,
    outcome: Result<AcceptedPart, AppError>,
)
    requires
        call_ensures(
            upload_part_at,
            (db, jwt_secret, upload_id, part_number, headers, body, at),
            outcome,
        ),
        forall|token: Seq<char>|
            header_value(*headers, "authorization"@) != Some(#[trigger] ("Bearer "@ + token)),
    ensures
        outcome matches Err(e) && e@ is Unauthorized,
{
    if bearer_token(*headers) is Some {
        lemma_bearer(*headers, bearer_token(*headers)->0);
    }
}

/// A token is refused more than a minute after its time as expired, one that this
/// secret did not sign as invalid, and one for another part as not matching.
pub proof fn bad_tokens_are_refused(
    jwt_secret: &str,
    upload_id: &str,
    part_number: i32,
    headers: &HeaderMap,
    at: i64,
    outcome: Result<PartGrant, AppError>,
    token: Seq<char>,
)
    requires
        call_ensures(check_token_at, (jwt_secret, upload_id, part_number, headers, at), outcome),
        header_value(*headers, "authorization"@) == Some("Bearer "@ + token),
    ensures
        signed_claims(jwt_secret@, token) is None ==> (outcome matches Err(e) && e@
            == ErrorView::Jwt(JwtError::Invalid)),
        signed_claims(jwt_secret@, token) matches Some(signed) ==> {
            &&& signed.found.upload_id is None || signed.found.part_number is None
                || signed.found.expected_size is None || signed.found.exp is None ==> (
            outcome matches Err(e) && e@ == ErrorView::Jwt(JwtError::Invalid))
            &&& outcome is Ok ==> signed.found.upload_id == Some(upload_id@)
                && signed.found.part_number == Some(part_number as i64)
            &&& signed.found.upload_id is Some && signed.found.expected_size is Some && (
            signed.found.part_number matches Some(n) && i32::MIN <= n <= i32::MAX) && (
            signed.found.exp matches Some(exp) && at > exp + 60) ==> (outcome matches Err(e) && e@
                == ErrorView::Jwt(JwtError::Expired))
        },
{
    lemma_bearer(*headers, token);
}

/// Once a part is recorded, it has arrived, with the digest and the time that were
/// recorded, and one more part of the upload counts as arrived. The answer names
/// the part and gives that number. No other part and no upload changes.
pub proof fn recorded_parts_have_arrived(
    db: &mut Database,
    accepted: &AcceptedPart,
    at: i64,
    outcome: Result<PartUploadResponse, AppError>,
)
    requires
        old(db).wf(),
        call_ensures(record_part_at, (db, accepted, at), outcome),
        part(old(db)@, accepted.upload.id@, accepted.part_number) matches Some(p) && p.status
            == PartStatus::Pending,
        arrived(old(db)@.parts, accepted.upload.id@) < i32::MAX,
    ensures
        final(db)@.uploads == old(db)@.uploads,
        ({
            let id = accepted.upload.id@;
            let p = part(old(db)@, id, accepted.part_number)->0;
            &&& part(final(db)@, id, accepted.part_number) matches Some(q) && {
                &&& q.status == PartStatus::Uploaded
                &&& q.checksum_sha256 == Some(accepted.checksum_sha256@)
                &&& q.uploaded_at == Some(at)
                &&& q.size == p.size
                &&& q.token_hash == p.token_hash
            }
            &&& arrived(final(db)@.parts, id) == arrived(old(db)@.parts, id) + 1
            &&& forall|number: i32|
                number != accepted.part_number ==> #[trigger] part(final(db)@, id, number) == part(
                    old(db)@,
                    id,
                    number,
                )
            &&& forall|other: Seq<char>|
                other != id ==> #[trigger] arrived(final(db)@.parts, other) == arrived(
                    old(db)@.parts,
                    other,
                )
            &&& outcome matches Ok(r) && {
                &&& r.upload_id@ == id
                &&& r.part_number == accepted.part_number
                &&& r.status@ == "uploaded"@
                &&& r.checksum_sha256@ == accepted.checksum_sha256@
                &&& r.uploaded_parts == arrived(old(db)@.parts, id) + 1
                &&& r.total_parts == accepted.upload.total_parts
            }
        }),
{
    let t = old(db)@;
    let end = final(db)@;
    let id = accepted.upload.id@;
    let number = accepted.part_number;
    let p = part(t, id, number)->0;
    recording_a_part_counts_it(t, id, number, accepted.checksum_sha256@, at);
    lemma_part_with_key(t.parts, id, number);
    let row = part_reached(p, PartStatus::Uploaded, Some(accepted.checksum_sha256@), at);
    let i = choose|i: int| 0 <= i < t.parts.len() && t.parts[i] == p;
    lemma_put_part(t, i, row);
    uploaded_parts_are_the_arrived(t.parts, id);
    uploaded_parts_are_the_arrived(end.parts, id);
    assert forall|other: Seq<char>| other != id implies #[trigger] arrived(end.parts, other)
        == arrived(t.parts, other) by {
        uploaded_parts_are_the_arrived(t.parts, other);
        uploaded_parts_are_the_arrived(end.parts, other);
    }
}

/// Whenever a part is accepted, its body is exactly as long as the size that was
/// signed into its token, for this part of this upload, with a second of expiry that
/// is no more than a minute past at the time of the request.
pub proof fn parts_are_accepted_as_granted(
    db: &Database,
    jwt_secret: &str,
    upload_id: &str,
    part_number: i32,
    headers: &HeaderMap,
    body: &[u8],
    outcome: Result<AcceptedPart, AppError>,
    token: Seq<char>,
)
    requires
        call_ensures(
            upload_part,
            (db, jwt_secret, upload_id, part_number, headers, body),
            outcome,
        ),
        outcome is Ok,
        header_value(*headers, "authorization"@) == Some("Bearer "@ + token),
    ensures
        signed_claims(jwt_secret@, token) matches Some(signed) && {
            &&& signed.found.upload_id == Some(upload_id@)
            &&& signed.found.part_number == Some(part_number as i64)
            &&& signed.found.expected_size matches Some(size) && size == body@.len()
            &&& signed.found.exp matches Some(exp) && exists|at: i64|
                0 <= at <= LATEST && at <= exp + 60 && #[trigger] upload_checked(
                    outcome,
                    db@,
                    jwt_secret@,
                    upload_id@,
                    part_number,
                    *headers,
                    body@,
                    at,
                )
        },
        upload(db@, upload_id@) matches Some(u) && u.status == UploadStatus::Pending,
        part(db@, upload_id@, part_number) matches Some(p) && p.status == PartStatus::Pending
            && p.token_hash == token_hash(token),
        Some(outcome->Ok_0.upload@) == upload(db@, upload_id@),
        outcome->Ok_0.part_number == part_number,
        outcome->Ok_0.checksum_sha256@ == digest_text(body@),
{
    lemma_bearer(*headers, token);
}

/// The same of a part that is recorded now: it has arrived, with its digest, and the
/// answer gives the number of parts that have.
pub proof fn parts_are_recorded_now(
    db: &mut Database,
    accepted: &AcceptedPart,
    outcome: Result<PartUploadResponse, AppError>,
)
    requires
        old(db).wf(),
        call_ensures(record_part, (db, accepted), outcome),
        part(old(db)@, accepted.upload.id@, accepted.part_number) matches Some(p) && p.status
            == PartStatus::Pending,
        arrived(old(db)@.parts, accepted.upload.id@) < i32::MAX,
    ensures
        final(db)@.uploads == old(db)@.uploads,
        part(final(db)@, accepted.upload.id@, accepted.part_number) matches Some(q) && q.status
            == PartStatus::Uploaded && q.checksum_sha256 == Some(accepted.checksum_sha256@),
        arrived(final(db)@.parts, accepted.upload.id@) == arrived(
            old(db)@.parts,
            accepted.upload.id@,
        ) + 1,
        outcome matches Ok(r) && {
            &&& r.upload_id@ == accepted.upload.id@
            &&& r.part_number == accepted.part_number
            &&& r.status@ == "uploaded"@
            &&& r.checksum_sha256@ == accepted.checksum_sha256@
            &&& r.uploaded_parts == arrived(old(db)@.parts, accepted.upload.id@) + 1
            &&& r.total_parts == accepted.upload.total_parts
        },
{
    let t = old(db)@;
    let id = accepted.upload.id@;
    let number = accepted.part_number;
    let at = choose|at: i64|
        0 <= at <= LATEST && final(db)@ == #[trigger] with_part_recorded(
            t,
            id,
            number,
            accepted.checksum_sha256@,
            at,
        );
    recording_a_part_counts_it(t, id, number, accepted.checksum_sha256@, at);
    let p = part(t, id, number)->0;
    lemma_part_with_key(t.parts, id, number);
    let row = part_reached(p, PartStatus::Uploaded, Some(accepted.checksum_sha256@), at);
    let i = choose|i: int| 0 <= i < t.parts.len() && t.parts[i] == p;
    lemma_put_part(t, i, row);
    uploaded_parts_are_the_arrived(t.parts, id);
    uploaded_parts_are_the_arrived(final(db)@.parts, id);
}

/// Recording a part leaves it arrived whatever it was before; recording one that is
/// not there changes nothing.
pub proof fn recording_leaves_a_part_arrived(
    db: &mut Database,
    accepted: &AcceptedPart,
    at: i64,
    outcome: Result<PartUploadResponse, AppError>,
)
    requires
        old(db).wf(),
        call_ensures(record_part_at, (db, accepted, at), outcome),
    ensures
        final(db)@.uploads == old(db)@.uploads,
        part(old(db)@, accepted.upload.id@, accepted.part_number) is None ==> final(db)@
            == old(db)@,
        part(old(db)@, accepted.upload.id@, accepted.part_number) is Some ==> (part(
            final(db)@,
            accepted.upload.id@,
            accepted.part_number,
        ) matches Some(q) && q.status == PartStatus::Uploaded && q.checksum_sha256 == Some(
            accepted.checksum_sha256@,
        ) && q.uploaded_at == Some(at)),
        outcome is Ok == (arrived(final(db)@.parts, accepted.upload.id@) <= i32::MAX),
        outcome matches Ok(r) ==> r.uploaded_parts == arrived(
            final(db)@.parts,
            accepted.upload.id@,
        ),
{
    let t = old(db)@;
    let id = accepted.upload.id@;
    let number = accepted.part_number;
    uploaded_parts_are_the_arrived(final(db)@.parts, id);
    if part(t, id, number) is Some {
        let p = part(t, id, number)->0;
        lemma_part_with_key(t.parts, id, number);
        let row = part_reached(p, PartStatus::Uploaded, Some(accepted.checksum_sha256@), at);
        let i = choose|i: int| 0 <= i < t.parts.len() && t.parts[i] == p;
        lemma_put_part(t, i, row);
    }
}

/// A token that was signed for a part lets its part in: the request is granted what
/// was signed, up to a minute after the token's time.
pub proof fn good_tokens_are_granted(
    jwt_secret: &str,
    upload_id: &str,
    part_number: i32,
    headers: &HeaderMap,
    at: i64,
    outcome: Result<PartGrant, AppError>,
    token: Seq<char>,
)
    requires
        call_ensures(check_token_at, (jwt_secret, upload_id, part_number, headers, at), outcome),
        header_value(*headers, "authorization"@) == Some("Bearer "@ + token),
        signed_claims(jwt_secret@, token) matches Some(signed) && {
            &&& signed.found.upload_id == Some(upload_id@)
            &&& signed.found.part_number == Some(part_number as i64)
            &&& signed.found.expected_size is Some
            &&& signed.found.exp matches Some(exp) && at <= exp + 60
            &&& !signed.addressed
        },
    ensures
        outcome matches Ok(grant) && {
            let found = signed_claims(jwt_secret@, token)->0.found;
            &&& grant.token@ == token
            &&& grant.claims.upload_id@ == upload_id@
            &&& grant.claims.part_number == part_number
            &&& Some(grant.claims.expected_size) == found.expected_size
            &&& Some(grant.claims.exp) == found.exp
        },
{
    lemma_bearer(*headers, token);
}

/// A part comes through: with the token that was handed out for it, a body of the
/// size that was signed, a pending upload and a part that has not arrived, the
/// request is accepted.
pub proof fn granted_parts_are_accepted(
    db: &Database,
    jwt_secret: &str,
    upload_id: &str,
    part_number: i32,
    headers: &HeaderMap,
    body: &[u8],
    at: i64,
    outcome: Result<AcceptedPart, AppError>,
    token: Seq<char>,
)
    requires
        call_ensures(
            upload_part_at,
            (db, jwt_secret, upload_id, part_number, headers, body, at),
            outcome,
        ),
        header_value(*headers, "authorization"@) == Some("Bearer "@ + token),
        signed_claims(jwt_secret@, token) matches Some(signed) && {
            &&& signed.found.upload_id == Some(upload_id@)
            &&& signed.found.part_number == Some(part_number as i64)
            &&& signed.found.expected_size matches Some(size) && size == body@.len()
            &&& signed.found.exp matches Some(exp) && at <= exp + 60
            &&& !signed.addressed
        },
        upload(db@, upload_id@) matches Some(u) && u.status == UploadStatus::Pending,
        part(db@, upload_id@, part_number) matches Some(p) && p.status == PartStatus::Pending
            && p.token_hash == token_hash(token),
    ensures
        outcome is Ok,
{
    lemma_bearer(*headers, token);
}

/// The token of a request is what follows `Bearer ` in its header `authorization`;
/// without it the request is refused.
pub proof fn tokens_are_read_from_the_header(
    headers: &HeaderMap,
    outcome: Result<String, AppError>,
    token: Seq<char>,
)
    requires
        call_ensures(read_bearer_token, (headers,), outcome),
    ensures
        header_value(*headers, "authorization"@) == Some("Bearer "@ + token) ==> (
        outcome matches Ok(t) && t@ == token),
        outcome matches Ok(t) ==> header_value(*headers, "authorization"@) == Some(
            "Bearer "@ + t@,
        ),
        outcome matches Err(e) ==> e@ == ErrorView::Unauthorized(
            "Missing or invalid Authorization header"@,
        ),
{
    lemma_bearer(*headers, token);
}

/// Whenever a request's token is granted, it was signed for this part of this upload
/// and is no more than a minute past its time, and what is granted is what was
/// signed.
pub proof fn tokens_are_granted_as_signed(
    jwt_secret: &str,
    upload_id: &str,
    part_number: i32,
    headers: &HeaderMap,
    outcome: Result<PartGrant, AppError>,
)
    requires
        call_ensures(check_token, (jwt_secret, upload_id, part_number, headers), outcome),
        outcome is Ok,
    ensures
        ({
            let grant = outcome->Ok_0;
            &&& header_value(*headers, "authorization"@) == Some("Bearer "@ + grant.token@)
            &&& grant.claims.upload_id@ == upload_id@
            &&& grant.claims.part_number == part_number
            &&& signed_claims(jwt_secret@, grant.token@) matches Some(signed) && {
                &&& signed.found.upload_id == Some(upload_id@)
                &&& signed.found.part_number == Some(part_number as i64)
                &&& signed.found.expected_size == Some(grant.claims.expected_size)
                &&& signed.found.exp == Some(grant.claims.exp)
                &&& !signed.addressed
            }
        }),
{
    lemma_bearer(*headers, outcome->Ok_0.token@);
}

} // verus!
