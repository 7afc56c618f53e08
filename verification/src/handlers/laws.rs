//! What holds of the requests taken together.
use crate::auth::jwt::{
    granted, signed_claims_are_granted, token_hash, tokens_tell_parts_apart, verdict, ClaimsView,
    LEEWAY_SECS,
};
use crate::cast::signed;
use crate::clock::{is_date, Instant};
use crate::config::Config;
use crate::db::lifecycle::{
    after_restart, completed, failed, is_stale, may_start, part_reached, progressed, restarted,
    started, with_final_path, with_status,
};
use crate::db::schema::{PartStatus, PartView, UploadStatus, UploadView};
use crate::db::tables::{
    all_after_restart, finalizing_count, keys_hold, lemma_part_found, lemma_part_with_key,
    lemma_put_part, part, part_with_key, same_key, unknown_ids_have_no_parts, upload,
    uploaded_count, Tables,
};
use crate::error::{ErrorView, JwtError};
use crate::handlers::complete::completes;
use crate::handlers::init::{
    claims_for, expiry, new_part, new_upload, part_count, recorded, InitUploadRequest,
    InitUploadResponse,
};
use crate::handlers::part::{body_refusal, with_part_recorded};
use vstd::prelude::*;

verus! {

// ---------------------------------------------------------------------------
// Announcing and uploading
// ---------------------------------------------------------------------------
/// What was announced is found in the tables: the upload pending, each of its
/// parts pending, none of them uploaded. Every other upload and part is as it
/// was.
pub proof fn announced_files_are_found(
    before: Tables,
    end: Tables,
    response: InitUploadResponse,
    config: Config,
    backend_type: Seq<char>,
    request: InitUploadRequest,
    id: Seq<char>,
    start: Instant,
)
    requires
        keys_hold(before),
        keys_hold(end),
        recorded(before, end, response, config, backend_type, request, id, start),
    ensures
        upload(end, id) == Some(new_upload(config, backend_type, request, id, start)),
        forall|i: int|
            0 <= i < part_count(config, request) ==> part(end, id, i as i32) == Some(
                #[trigger] new_part(config, request, id, start, i, response.parts@[i].token@),
            ),
        uploaded_count(end.parts, id) == 0,
        forall|other: Seq<char>|
            other != id ==> #[trigger] upload(end, other) == upload(before, other),
        forall|other: Seq<char>, number: i32|
            other != id ==> #[trigger] part(end, other, number) == part(before, other, number),
{
    let count = part_count(config, request);
    let rows = Seq::new(
        count as nat,
        |i: int| new_part(config, request, id, start, i, response.parts@[i].token@),
    );
    assert(end.uploads.drop_last() =~= before.uploads);
    unknown_ids_have_no_parts(before, id);
    assert forall|i: int| 0 <= i < count implies part(end, id, i as i32) == Some(
        #[trigger] new_part(config, request, id, start, i, response.parts@[i].token@),
    ) by {
        let at = before.parts.len() + i;
        assert(end.parts[at] == rows[i]);
        lemma_part_found(end.parts, at);
    }
    lemma_no_uploads(before.parts, id);
    lemma_pending_rows_count_nothing(before.parts, rows, id, rows.len() as int);
    assert(rows.take(rows.len() as int) =~= rows);
    assert forall|other: Seq<char>, number: i32| other != id implies #[trigger] part(
        end,
        other,
        number,
    ) == part(before, other, number) by {
        lemma_rows_of_another(before.parts, rows, id, other, number, rows.len() as int);
    }
}

proof fn lemma_no_uploads(parts: Seq<PartView>, id: Seq<char>)
    requires
        forall|i: int| 0 <= i < parts.len() ==> (#[trigger] parts[i]).upload_id != id,
    ensures
        uploaded_count(parts, id) == 0,
    decreases parts.len(),
{
    if parts.len() > 0 {
        assert forall|i: int| 0 <= i < parts.drop_last().len() implies (
        #[trigger] parts.drop_last()[i]).upload_id != id by {
            assert(parts.drop_last()[i] == parts[i]);
        }
        lemma_no_uploads(parts.drop_last(), id);
        assert(parts.last() == parts[parts.len() - 1]);
    }
}

proof fn lemma_pending_rows_count_nothing(
    parts: Seq<PartView>,
    rows: Seq<PartView>,
    id: Seq<char>,
    n: int,
)
    requires
        0 <= n <= rows.len(),
        forall|i: int| 0 <= i < rows.len() ==> (#[trigger] rows[i]).status == PartStatus::Pending,
    ensures
        uploaded_count(parts + rows.take(n), id) == uploaded_count(parts, id),
    decreases n,
{
    if n == 0 {
        assert(parts + rows.take(0) =~= parts);
    } else {
        lemma_pending_rows_count_nothing(parts, rows, id, n - 1);
        let all = parts + rows.take(n);
        assert(all.drop_last() =~= parts + rows.take(n - 1));
        assert(all.last() == rows[n - 1]);
    }
}

proof fn lemma_rows_of_another(
    parts: Seq<PartView>,
    rows: Seq<PartView>,
    id: Seq<char>,
    other: Seq<char>,
    number: i32,
    n: int,
)
    requires
        other != id,
        0 <= n <= rows.len(),
        forall|i: int| 0 <= i < rows.len() ==> (#[trigger] rows[i]).upload_id == id,
    ensures
        part_with_key(parts + rows.take(n), other, number) == part_with_key(parts, other, number),
    decreases n,
{
    if n == 0 {
        assert(parts + rows.take(0) =~= parts);
    } else {
        lemma_rows_of_another(parts, rows, id, other, number, n - 1);
        let all = parts + rows.take(n);
        assert(all.drop_last() =~= parts + rows.take(n - 1));
        assert(all.last() == rows[n - 1]);
    }
}

/// The tokens that an announcement hands out are good: each grants its part, and
/// a body of the announced size is accepted with it.
pub proof fn handed_out_tokens_are_accepted(
    before: Tables,
    end: Tables,
    response: InitUploadResponse,
    config: Config,
    backend_type: Seq<char>,
    request: InitUploadRequest,
    id: Seq<char>,
    start: Instant,
    number: int,
    body: Seq<u8>,
)
    requires
        keys_hold(before),
        keys_hold(end),
        recorded(before, end, response, config, backend_type, request, id, start),
        0 <= number < part_count(config, request),
        body.len() == claims_for(config, request, id, start, number).expected_size,
    ensures
        ({
            let token = response.parts@[number].token@;
            let claims = claims_for(config, request, id, start, number);
            &&& granted(config.jwt_secret@, token) == Some(claims)
            &&& body_refusal(end, claims, token, id, number as i32, body) is None
        }),
{
    let token = response.parts@[number].token@;
    let claims = claims_for(config, request, id, start, number);
    assert(response.parts@[number].part == number);
    signed_claims_are_granted(config.jwt_secret@, token, claims);
    announced_files_are_found(
        before,
        end,
        response,
        config,
        backend_type,
        request,
        id,
        start,
    );
    let row = new_part(config, request, id, start, number, token);
    assert(part(end, id, number as i32) == Some(row));
}

/// The tokens that an announcement hands out last as long as the upload. Up to
/// the second at which the upload expires, and for the leeway after it, each is
/// read as the claims to its part; from then on it is refused. Each is recorded by
/// its digest, no two of them are the same, and the upload expires as many hours
/// after it was announced as the settings say.
pub proof fn handed_out_tokens_last_until_the_upload_expires(
    before: Tables,
    end: Tables,
    response: InitUploadResponse,
    config: Config,
    backend_type: Seq<char>,
    request: InitUploadRequest,
    id: Seq<char>,
    start: Instant,
    number: int,
    at: i64,
)
    requires
        keys_hold(before),
        keys_hold(end),
        recorded(before, end, response, config, backend_type, request, id, start),
        0 <= expiry(config, start),
        is_date(expiry(config, start)),
        0 <= number < part_count(config, request),
    ensures
        ({
            let token = response.parts@[number].token@;
            let claims = claims_for(config, request, id, start, number);
            let stored = upload(end, id)->0;
            let row = part(end, id, number as i32)->0;
            &&& upload(end, id) is Some
            &&& part(end, id, number as i32) is Some
            &&& stored.expires_at == stored.created_at + 3600 * signed(config.upload_ttl_hours)
            &&& claims.upload_id == id && claims.part_number == number && claims.expected_size
                == row.size && claims.exp == stored.expires_at
            &&& verdict(config.jwt_secret@, token, at) == if at <= stored.expires_at + LEEWAY_SECS {
                Ok::<ClaimsView, JwtError>(claims)
            } else {
                Err(JwtError::Expired)
            }
            &&& row.token_hash == token_hash(token)
            &&& forall|other: int|
                0 <= other < part_count(config, request) && other != number
                    ==> #[trigger] response.parts@[other].token@ != token
        }),
{
    let secret = config.jwt_secret@;
    let token = response.parts@[number].token@;
    let claims = claims_for(config, request, id, start, number);
    announced_files_are_found(before, end, response, config, backend_type, request, id, start);
    let row = new_part(config, request, id, start, number, token);
    assert(part(end, id, number as i32) == Some(row));
    assert(response.parts@[number].part == number);
    signed_claims_are_granted(secret, token, claims);
    assert forall|other: int|
        0 <= other < part_count(config, request) && other != number implies
        #[trigger] response.parts@[other].token@ != token by {
        assert(response.parts@[other].part == other);
        tokens_tell_parts_apart(
            secret,
            response.parts@[other].token@,
            claims_for(config, request, id, start, other),
            token,
            claims,
        );
    }
}

/// A part is uploaded once: when it was recorded, another upload of it is turned
/// down.
pub proof fn a_part_is_uploaded_once(
    t: Tables,
    claims: crate::auth::jwt::ClaimsView,
    token: Seq<char>,
    id: Seq<char>,
    number: i32,
    body: Seq<u8>,
    checksum: Seq<char>,
    at: i64,
)
    requires
        keys_hold(t),
        body_refusal(t, claims, token, id, number, body) is None,
    ensures
        ({
            let end = with_part_recorded(t, id, number, checksum, at);
            &&& keys_hold(end)
            &&& body_refusal(end, claims, token, id, number, body) == Some(
                ErrorView::Conflict("Part already uploaded"@),
            )
        }),
{
    let p = part(t, id, number)->0;
    let row = part_reached(p, PartStatus::Uploaded, Some(checksum), at);
    lemma_part_with_key(t.parts, id, number);
    let i = choose|i: int| 0 <= i < t.parts.len() && t.parts[i] == p;
    lemma_put_part(t, i, row);
}

/// Recording a part that was pending raises the count of uploaded parts by one,
/// and leaves that of every other upload.
pub proof fn recording_a_part_counts_it(
    t: Tables,
    id: Seq<char>,
    number: i32,
    checksum: Seq<char>,
    at: i64,
)
    requires
        keys_hold(t),
        part(t, id, number) matches Some(p) && p.status == PartStatus::Pending,
    ensures
        ({
            let end = with_part_recorded(t, id, number, checksum, at);
            &&& keys_hold(end)
            &&& end.uploads == t.uploads
            &&& uploaded_count(end.parts, id) == uploaded_count(t.parts, id) + 1
            &&& forall|other: Seq<char>|
                other != id ==> #[trigger] uploaded_count(end.parts, other) == uploaded_count(
                    t.parts,
                    other,
                )
            &&& forall|k: i32| k != number ==> #[trigger] part(end, id, k) == part(t, id, k)
            &&& part(end, id, number) matches Some(p) && p.status == PartStatus::Uploaded
        }),
{
    let p = part(t, id, number)->0;
    let row = part_reached(p, PartStatus::Uploaded, Some(checksum), at);
    let end = with_part_recorded(t, id, number, checksum, at);
    lemma_part_with_key(t.parts, id, number);
    let i = choose|i: int| 0 <= i < t.parts.len() && t.parts[i] == p;
    lemma_put_part(t, i, row);
    lemma_count_after_update(t.parts, i, row, id);
    assert forall|other: Seq<char>| other != id implies #[trigger] uploaded_count(end.parts, other)
        == uploaded_count(t.parts, other) by {
        lemma_count_after_update(t.parts, i, row, other);
    }
    assert forall|k: i32| k != number implies #[trigger] part(end, id, k) == part(t, id, k) by {
        lemma_lookup_after_update(t.parts, i, row, id, k);
    }
}

proof fn lemma_count_after_update(parts: Seq<PartView>, i: int, row: PartView, id: Seq<char>)
    requires
        0 <= i < parts.len(),
        parts[i].upload_id == row.upload_id,
        parts[i].status == PartStatus::Pending,
        row.status == PartStatus::Uploaded,
    ensures
        uploaded_count(parts.update(i, row), id) == uploaded_count(parts, id) + if row.upload_id
            == id {
            1nat
        } else {
            0nat
        },
    decreases parts.len(),
{
    let after = parts.update(i, row);
    if i == parts.len() - 1 {
        assert(after.drop_last() =~= parts.drop_last());
    } else {
        assert(after.drop_last() =~= parts.drop_last().update(i, row));
        lemma_count_after_update(parts.drop_last(), i, row, id);
        assert(after.last() == parts.last());
    }
}

proof fn lemma_lookup_after_update(
    parts: Seq<PartView>,
    i: int,
    row: PartView,
    id: Seq<char>,
    number: i32,
)
    requires
        0 <= i < parts.len(),
        same_key(parts[i], row),
        row.part_number != number,
    ensures
        part_with_key(parts.update(i, row), id, number) == part_with_key(parts, id, number),
    decreases parts.len(),
{
    let after = parts.update(i, row);
    if i == parts.len() - 1 {
        assert(after.drop_last() =~= parts.drop_last());
    } else {
        assert(after.drop_last() =~= parts.drop_last().update(i, row));
        lemma_lookup_after_update(parts.drop_last(), i, row, id, number);
        assert(after.last() == parts.last());
    }
}

/// The tables after the first `n` parts of an upload were recorded, in order.
pub open spec fn with_parts_recorded(
    t: Tables,
    id: Seq<char>,
    checksums: Seq<Seq<char>>,
    times: Seq<i64>,
    n: int,
) -> Tables
    decreases n,
{
    if n <= 0 {
        t
    } else {
        with_part_recorded(
            with_parts_recorded(t, id, checksums, times, n - 1),
            id,
            (n - 1) as i32,
            checksums[n - 1],
            times[n - 1],
        )
    }
}

/// Recording the parts of an upload one after the other counts each of them.
pub proof fn recording_parts_counts_them(
    t: Tables,
    id: Seq<char>,
    checksums: Seq<Seq<char>>,
    times: Seq<i64>,
    count: int,
    n: int,
)
    requires
        keys_hold(t),
        0 <= n <= count <= i32::MAX,
        uploaded_count(t.parts, id) == 0,
        forall|i: i32|
            0 <= i < count ==> ((#[trigger] part(t, id, i)) matches Some(p) && p.status
                == PartStatus::Pending),
    ensures
        ({
            let end = with_parts_recorded(t, id, checksums, times, n);
            &&& keys_hold(end)
            &&& end.uploads == t.uploads
            &&& uploaded_count(end.parts, id) == n
            &&& forall|i: i32| n <= i < count ==> #[trigger] part(end, id, i) == part(t, id, i)
        }),
    decreases n,
{
    if n > 0 {
        recording_parts_counts_them(t, id, checksums, times, count, n - 1);
        let mid = with_parts_recorded(t, id, checksums, times, n - 1);
        let number = (n - 1) as i32;
        assert(part(mid, id, number) == part(t, id, number));
        recording_a_part_counts_it(mid, id, number, checksums[n - 1], times[n - 1]);
    }
}

/// An announced upload can be completed once all its parts were uploaded, and
/// not before: with every part recorded a completion request starts the
/// finalization, and with one or more missing it does not.
pub proof fn completion_needs_every_part(
    t: Tables,
    end: Tables,
    outcome: Result<crate::handlers::complete::Completion, crate::error::AppError>,
    id: Seq<char>,
    checksums: Seq<Seq<char>>,
    times: Seq<i64>,
    n: int,
    at: i64,
)
    requires
        keys_hold(t),
        upload(t, id) matches Some(u) && u.status == UploadStatus::Pending && 0 <= n
            <= u.total_parts,
        uploaded_count(t.parts, id) == 0,
        forall|i: i32|
            0 <= i < upload(t, id)->0.total_parts ==> ((#[trigger] part(t, id, i)) matches Some(p)
                && p.status == PartStatus::Pending),
        completes(with_parts_recorded(t, id, checksums, times, n), end, outcome, id, at),
    ensures
        (outcome matches Ok(c) && c.start_task) == (n == upload(t, id)->0.total_parts),
        outcome is Ok == (n == upload(t, id)->0.total_parts),
{
    recording_parts_counts_them(
        t,
        id,
        checksums,
        times,
        upload(t, id)->0.total_parts as int,
        n,
    );
}

// ---------------------------------------------------------------------------
// The life of an upload
// ---------------------------------------------------------------------------
/// The progress of finalization lies from 0 to 100.
pub open spec fn progress_in_range(u: UploadView) -> bool {
    0 <= u.finalizing_progress_percent <= 100
}

/// Whatever happens to an upload, its progress stays from 0 to 100.
pub proof fn progress_stays_a_percentage(
    u: UploadView,
    percent: i32,
    text: Seq<char>,
    status: UploadStatus,
    at: i64,
)
    requires
        progress_in_range(u),
    ensures
        progress_in_range(with_status(u, status, at)),
        progress_in_range(started(u, at)),
        progress_in_range(restarted(u, at)),
        progress_in_range(progressed(u, percent, at)),
        progress_in_range(completed(u, text, at)),
        progress_in_range(failed(u, text, at)),
        progress_in_range(with_final_path(u, text, at)),
        progress_in_range(after_restart(u, at)),
{
}

/// Finalization runs once at a time: an upload that is being finalized or is
/// complete cannot be started, and one whose finalization was just begun, begun
/// again or moved on is not stale for as long as the threshold.
pub proof fn finalization_runs_once(u: UploadView, percent: i32, at: i64, later: i64, threshold: i64)
    requires
        later - threshold <= at,
    ensures
        !may_start(started(u, at)),
        !is_stale(started(u, at), later, threshold),
        u.status == UploadStatus::Finalizing ==> !may_start(u) && !is_stale(
            restarted(u, at),
            later,
            threshold,
        ) && !is_stale(progressed(u, percent, at), later, threshold),
        u.status == UploadStatus::Complete ==> !may_start(u) && !is_stale(u, later, threshold),
{
}

/// After a restart of the service no upload is being finalized, and each that
/// was can be started again.
pub proof fn a_restart_ends_every_finalization(t: Tables, now: i64)
    requires
        keys_hold(t),
    ensures
        finalizing_count(all_after_restart(t, now).uploads) == 0,
        forall|i: int|
            0 <= i < t.uploads.len() && (#[trigger] t.uploads[i]).status
                == UploadStatus::Finalizing ==> may_start(all_after_restart(t, now).uploads[i]),
{
    lemma_none_finalizing(all_after_restart(t, now).uploads);
}

proof fn lemma_none_finalizing(uploads: Seq<UploadView>)
    requires
        forall|i: int|
            0 <= i < uploads.len() ==> (#[trigger] uploads[i]).status != UploadStatus::Finalizing,
    ensures
        finalizing_count(uploads) == 0,
    decreases uploads.len(),
{
    if uploads.len() > 0 {
        assert forall|i: int| 0 <= i < uploads.drop_last().len() implies (
        #[trigger] uploads.drop_last()[i]).status != UploadStatus::Finalizing by {
            assert(uploads.drop_last()[i] == uploads[i]);
        }
        lemma_none_finalizing(uploads.drop_last());
        assert(uploads.last() == uploads[uploads.len() - 1]);
    }
}

} // verus!
