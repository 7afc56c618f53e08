//! What announcing a file does.
use crate::auth::jwt::{signed_claims, token_hash};
use crate::cast::signed;
use crate::clock::{is_date, rfc3339_text, Instant, LATEST};
use crate::config::Config;
use crate::db::Database;
use crate::db::schema::{PartStatus, UploadStatus, UploadView};
use crate::db::tables::{keys_hold, part, upload, Tables};
use crate::error::AppError;
use crate::handlers::init::{
    announceable, answered, expiry, init_upload, init_upload_at, init_upload_with, new_part,
    recorded, InitUploadRequest, InitUploadResponse,
};
use crate::handlers::laws::announced_files_are_found;
use crate::handlers::part::{upload_part_at, AcceptedPart};
use crate::handlers::plan::{ceiling, ordinary_files_are_counted_exactly, part_size};
use crate::handlers::status::{get_status, StatusQuery, UploadStatusResponse};
use crate::headers::header_value;
use crate::ids::is_uuid_text;
use crate::laws::access::the_key_is_the_header;
use crate::laws::counting::{arrived, uploaded_parts_are_the_arrived};
use crate::laws::naming::lemma_name_alone;
use crate::laws::status::the_record_is_told;
use crate::laws::uploading::accepted_parts_were_granted;
use crate::paths::{file_name_of, joined, joining_sets_the_file_name, parent_of, tidy};
use crate::storage::disk::concatenated;
use crate::text::option_view;
use axum::http::HeaderMap;
use vstd::arithmetic::div_mod::lemma_fundamental_div_mod_converse;
use vstd::prelude::*;

verus! {

// ---------------------------------------------------------------------------
// The upload
// ---------------------------------------------------------------------------
/// What the row of a new upload says, but for the name of the file: everything as
/// it was announced, nothing arrived, nothing put together.
pub open spec fn is_new(
    u: UploadView,
    config: Config,
    backend_type: Seq<char>,
    request: InitUploadRequest,
    start: Instant,
) -> bool {
    &&& u.status == UploadStatus::Pending
    &&& u.total_size == request.total_size
    &&& config.chunk_size_bytes <= i64::MAX ==> u.chunk_size == config.chunk_size_bytes
    &&& u.storage_backend == backend_type
    &&& u.final_path is None
    &&& u.checksum_sha256 == option_view(request.checksum_sha256)
    &&& u.webhook_url == option_view(request.webhook_url)
    &&& u.finalization_started_at is None
    &&& u.finalization_updated_at is None
    &&& u.finalization_error is None
    &&& u.finalizing_progress_percent == 0
    &&& u.created_at == start.seconds
    &&& u.updated_at == start.seconds
    &&& config.upload_ttl_hours <= i64::MAX ==> u.expires_at == start.seconds + 3600
        * config.upload_ttl_hours
}

proof fn lemma_new(
    before: Tables,
    end: Tables,
    response: InitUploadResponse,
    config: Config,
    backend_type: Seq<char>,
    request: InitUploadRequest,
    id: Seq<char>,
    start: Instant,
)
    requires
        keys_hold(before),
        keys_hold(end),
        is_date(expiry(config, start)),
        recorded(before, end, response, config, backend_type, request, id, start),
    ensures
        upload(end, id) matches Some(u) && u.id == id && u.total_parts == response.total_parts
            && is_new(u, config, backend_type, request, start),
        response.parts@.len() == response.total_parts,
        arrived(end.parts, id) == 0,
{
    announced_files_are_found(before, end, response, config, backend_type, request, id, start);
    uploaded_parts_are_the_arrived(end.parts, id);
}

/// An announcement under a new id is recorded: the upload is there, pending, as it
/// was announced, and none of its parts has arrived. Every other upload and part
/// is as it was.
pub proof fn announced_uploads_are_recorded(
    db: &mut Database,
    config: &Config,
    backend_type: &str,
    request: &InitUploadRequest,
    id: &str,
    start: Instant,
    outcome: Result<InitUploadResponse, AppError>,
)
    requires
        old(db).wf(),
        announceable(*config, *request, start),
        call_ensures(init_upload_with, (db, config, backend_type, request, id, start), outcome),
        upload(old(db)@, id@) is None,
    ensures
        outcome matches Ok(response) && {
            &&& response.file_id@ == id@
            &&& config.chunk_size_bytes <= i64::MAX ==> response.chunk_size
                == config.chunk_size_bytes
            &&& upload(final(db)@, id@) matches Some(u) && u.id == id@ && u.total_parts
                == response.total_parts && is_new(u, *config, backend_type@, *request, start)
                && response.expires_at@ == rfc3339_text(u.expires_at, start.nanos)
        },
        arrived(final(db)@.parts, id@) == 0,
        forall|other: Seq<char>|
            other != id@ ==> #[trigger] upload(final(db)@, other) == upload(old(db)@, other),
        forall|other: Seq<char>, number: i32|
            other != id@ ==> #[trigger] part(final(db)@, other, number) == part(
                old(db)@,
                other,
                number,
            ),
{
    let response = outcome->Ok_0;
    lemma_new(
        old(db)@,
        final(db)@,
        response,
        *config,
        backend_type@,
        *request,
        id@,
        start,
    );
    announced_files_are_found(
        old(db)@,
        final(db)@,
        response,
        *config,
        backend_type@,
        *request,
        id@,
        start,
    );
}

/// No id is given twice: an announcement under the id of a known upload is refused
/// and changes nothing.
pub proof fn known_ids_are_not_announced_again(
    db: &mut Database,
    config: &Config,
    backend_type: &str,
    request: &InitUploadRequest,
    id: &str,
    start: Instant,
    outcome: Result<InitUploadResponse, AppError>,
)
    requires
        call_ensures(init_upload_with, (db, config, backend_type, request, id, start), outcome),
        upload(old(db)@, id@) is Some,
    ensures
        outcome matches Err(e) && e@ is Database,
        final(db)@ == old(db)@,
{
}

/// An announcement is answered exactly where the second at which the upload would
/// expire is a date, and where it is not answered nothing changes.
pub proof fn announcements_expire_at_a_date(
    db: &mut Database,
    config: &Config,
    backend_type: &str,
    request: &InitUploadRequest,
    id: &str,
    start: Instant,
    answer: Option<Result<InitUploadResponse, AppError>>,
)
    requires
        call_ensures(init_upload_at, (db, config, backend_type, request, id, start), answer),
        config.upload_ttl_hours <= i64::MAX,
    ensures
        answer is Some == (-8334601228800 <= start.seconds + 3600 * config.upload_ttl_hours
            <= 8210266876799),
        answer is None ==> final(db)@ == old(db)@,
        answer matches Some(outcome) ==> outcome is Ok == (upload(old(db)@, id@) is None),
{
}

/// An announcement with the right key is recorded under the id that is answered, a
/// UUID, as it was announced. One with another key, or with none, is refused with
/// 401 and changes nothing.
pub proof fn announcements_need_the_key(
    db: &mut Database,
    config: &Config,
    backend_type: &str,
    headers: &HeaderMap,
    request: &InitUploadRequest,
    answer: Option<Result<InitUploadResponse, AppError>>,
)
    requires
        old(db).wf(),
        call_ensures(init_upload, (db, config, backend_type, headers, request), answer),
    ensures
        header_value(*headers, "x-api-key"@) != Some(config.api_key@) ==> final(db)@ == old(db)@
            && (answer matches Some(Err(e)) && e@ is Unauthorized),
        header_value(*headers, "x-api-key"@) == Some(config.api_key@) ==> {
            &&& answer is None || answer->0 is Err ==> final(db)@ == old(db)@
            &&& answer matches Some(Err(e)) ==> e@ is Database
            &&& config.upload_ttl_hours == 0 ==> answer is Some
            &&& answer matches Some(Ok(response)) ==> {
                &&& is_uuid_text(response.file_id@)
                &&& upload(old(db)@, response.file_id@) is None
                &&& arrived(final(db)@.parts, response.file_id@) == 0
                &&& exists|start: Instant|
                    #![trigger expiry(*config, start)]
                    0 <= start.seconds <= LATEST && (upload(
                        final(db)@,
                        response.file_id@,
                    ) matches Some(u) && u.total_parts == response.total_parts && is_new(
                        u,
                        *config,
                        backend_type@,
                        *request,
                        start,
                    ))
            }
        },
{
    the_key_is_the_header(*headers, config.api_key@);
    if header_value(*headers, "x-api-key"@) == Some(config.api_key@) {
        let (id, start) = choose|id: Seq<char>, start: Instant|
            #![trigger is_uuid_text(id), expiry(*config, start)]
            is_uuid_text(id) && 0 <= start.seconds <= LATEST && start.nanos < 1_000_000_000
                && answered(
                old(db)@,
                final(db)@,
                answer,
                *config,
                backend_type@,
                *request,
                id,
                start,
            );
        if let Some(Ok(response)) = answer {
            lemma_new(
                old(db)@,
                final(db)@,
                response,
                *config,
                backend_type@,
                *request,
                id,
                start,
            );
            assert(is_date(expiry(*config, start)));
        }
    }
}

/// Of an upload that was announced and never completed a status request answers
/// that it is pending, that nothing has arrived and that there is no finished
/// file.
pub proof fn announced_uploads_have_no_file_yet(
    db: &mut Database,
    config: &Config,
    backend_type: &str,
    request: &InitUploadRequest,
    id: &str,
    start: Instant,
    outcome: Result<InitUploadResponse, AppError>,
    end: &Database,
    api_key: &str,
    query: &StatusQuery,
    headers: &HeaderMap,
    told: Result<UploadStatusResponse, AppError>,
)
    requires
        old(db).wf(),
        announceable(*config, *request, start),
        call_ensures(init_upload_with, (db, config, backend_type, request, id, start), outcome),
        outcome is Ok,
        *end == *final(db),
        header_value(*headers, "x-api-key"@) == Some(api_key@),
        call_ensures(get_status, (end, api_key, id, query, headers), told),
    ensures
        told matches Ok(r) && {
            &&& r.final_path is None
            &&& r.file_id@ == id@
            &&& r.total_size == request.total_size
            &&& r.total_parts == outcome->Ok_0.total_parts
            &&& r.uploaded_parts == 0
            &&& r.status@ == "pending"@
            &&& r.phase@ == "uploading"@
            &&& r.finalizing_progress_percent == 0
            &&& r.finalization_error is None
            &&& r.storage_backend@ == backend_type@
        },
{
    announced_uploads_are_recorded(db, config, backend_type, request, id, start, outcome);
    the_record_is_told(end, api_key, id, query, headers, told);
}

// ---------------------------------------------------------------------------
// The name
// ---------------------------------------------------------------------------
/// A name without slashes is kept as it is, and no directory is asked for.
pub proof fn plain_names_are_kept(
    db: &mut Database,
    config: &Config,
    backend_type: &str,
    request: &InitUploadRequest,
    id: &str,
    start: Instant,
    outcome: Result<InitUploadResponse, AppError>,
)
    requires
        old(db).wf(),
        call_ensures(init_upload_with, (db, config, backend_type, request, id, start), outcome),
        outcome is Ok,
        forall|i: int| 0 <= i < request.filename@.len() ==> request.filename@[i] != '/',
    ensures
        upload(final(db)@, id@) matches Some(u) && u.filename == request.filename@
            && u.target_path is None,
{
    let name = request.filename@;
    announced_files_are_found(
        old(db)@,
        final(db)@,
        outcome->Ok_0,
        *config,
        backend_type@,
        *request,
        id@,
        start,
    );
    lemma_name_alone(name);
}

/// Of a name with a path before it, as in `videos/2024/movie.mp4`, what follows
/// the last slash is the name of the file and what stands before that slash is
/// the directory that was asked for.
pub proof fn names_are_split_at_the_last_slash(
    db: &mut Database,
    config: &Config,
    backend_type: &str,
    request: &InitUploadRequest,
    id: &str,
    start: Instant,
    outcome: Result<InitUploadResponse, AppError>,
    directory: Seq<char>,
    name: Seq<char>,
)
    requires
        old(db).wf(),
        call_ensures(init_upload_with, (db, config, backend_type, request, id, start), outcome),
        outcome is Ok,
        request.filename@ == directory + "/"@ + name,
        directory.len() > 0,
        directory.last() != '/',
        directory.len() >= 2 ==> !(directory.last() == '.' && directory[directory.len() - 2]
            == '/'),
        name.len() > 0,
        forall|i: int| 0 <= i < name.len() ==> name[i] != '/',
        name != seq!['.'],
        name != seq!['.', '.'],
    ensures
        upload(final(db)@, id@) matches Some(u) && u.filename == name && u.target_path == Some(
            directory,
        ),
{
    announced_files_are_found(
        old(db)@,
        final(db)@,
        outcome->Ok_0,
        *config,
        backend_type@,
        *request,
        id@,
        start,
    );
    reveal_strlit("/");
    assert(joined(directory, name) =~= directory + "/"@ + name);
    joining_sets_the_file_name(directory, name);
    let open = joined(directory, Seq::empty());
    assert(open =~= directory.push('/'));
    assert(open.drop_last() =~= directory);
    assert(tidy(directory) == directory);
    assert(tidy(open) == tidy(open.drop_last()));
}

// ---------------------------------------------------------------------------
// The parts
// ---------------------------------------------------------------------------
/// A file of up to 2^53 bytes has just as many parts as it takes: with one chunk
/// fewer it would not fit.
pub proof fn files_have_as_many_parts_as_they_need(
    db: &mut Database,
    config: &Config,
    backend_type: &str,
    request: &InitUploadRequest,
    id: &str,
    start: Instant,
    outcome: Result<InitUploadResponse, AppError>,
)
    requires
        call_ensures(init_upload_with, (db, config, backend_type, request, id, start), outcome),
        outcome is Ok,
        0 <= request.total_size <= 0x20_0000_0000_0000,
        0 < config.chunk_size_bytes <= i64::MAX,
        request.total_size <= 0x7fff_ffff * config.chunk_size_bytes,
    ensures
        (outcome->Ok_0.total_parts - 1) * config.chunk_size_bytes < request.total_size
            <= outcome->Ok_0.total_parts * config.chunk_size_bytes,
        outcome->Ok_0.parts@.len() == outcome->Ok_0.total_parts,
{
    let a = request.total_size as int;
    let b = config.chunk_size_bytes as int;
    ordinary_files_are_counted_exactly(a, b);
    let n = ceiling(a, b);
    let q = (-a) / b;
    assert((-q - 1) * b < a <= -q * b && (a <= 0x7fff_ffff * b ==> -q <= 0x7fff_ffff)) by (
    nonlinear_arith)
        requires
            b > 0,
            q == (-a) / b,
    ;
}

/// What the parts of an announced file are: numbered from 0, each pending under
/// the digest of its own token, each but the last of the size of a chunk and the
/// last of the size of what is left. What is signed into the token of a part is
/// the upload, the number, the size and the second at which the upload expires.
pub proof fn parts_divide_the_file(
    db: &mut Database,
    config: &Config,
    backend_type: &str,
    request: &InitUploadRequest,
    id: &str,
    start: Instant,
    outcome: Result<InitUploadResponse, AppError>,
    i: int,
)
    requires
        old(db).wf(),
        announceable(*config, *request, start),
        call_ensures(init_upload_with, (db, config, backend_type, request, id, start), outcome),
        outcome is Ok,
        0 < config.chunk_size_bytes <= i64::MAX,
        (outcome->Ok_0.total_parts - 1) * config.chunk_size_bytes < request.total_size
            <= outcome->Ok_0.total_parts * config.chunk_size_bytes,
        0 <= i < outcome->Ok_0.total_parts,
    ensures
        ({
            let response = outcome->Ok_0;
            let size = if i < response.total_parts - 1 {
                config.chunk_size_bytes as int
            } else {
                request.total_size - (response.total_parts - 1) * config.chunk_size_bytes
            };
            &&& 0 < size <= config.chunk_size_bytes
            &&& response.parts@.len() == response.total_parts
            &&& response.parts@[i].part == i
            &&& response.parts@[i].status@ == "pending"@
            &&& part(final(db)@, id@, i as i32) matches Some(p) && {
                &&& p.status == PartStatus::Pending
                &&& p.size == size
                &&& p.token_hash == token_hash(response.parts@[i].token@)
                &&& p.checksum_sha256 is None
                &&& p.uploaded_at is None
            }
            &&& signed_claims(
                config.jwt_secret@,
                response.parts@[i].token@,
            ) matches Some(signed) && {
                &&& signed.found.upload_id == Some(id@)
                &&& signed.found.part_number == Some(i as i64)
                &&& signed.found.expected_size == Some(size as i64)
                &&& config.upload_ttl_hours <= i64::MAX && start.seconds >= 0 ==> (
                signed.found.exp matches Some(exp) && exp == start.seconds + 3600
                    * config.upload_ttl_hours)
                &&& !signed.addressed
            }
        }),
{
    let response = outcome->Ok_0;
    let a = request.total_size as int;
    let b = config.chunk_size_bytes as int;
    let n = response.total_parts as int;
    announced_files_are_found(
        old(db)@,
        final(db)@,
        response,
        *config,
        backend_type@,
        *request,
        id@,
        start,
    );
    lemma_last_part(a, b, n);
    let row = new_part(*config, *request, id@, start, i, response.parts@[i].token@);
    assert(part(final(db)@, id@, i as i32) == Some(row));
    assert(response.parts@[i].part == i);
}

/// What is left for the last of `n` parts is more than nothing and no more than a
/// chunk.
pub proof fn lemma_last_part(a: int, b: int, n: int)
    requires
        b > 0,
        n >= 1,
        (n - 1) * b < a <= n * b,
    ensures
        0 < a - (n - 1) * b <= b,
        part_size(a, b, n - 1, n) == a - (n - 1) * b,
{
    assert(n * b == (n - 1) * b + b) by (nonlinear_arith);
    assert((n - 1) * b >= 0) by (nonlinear_arith)
        requires
            n >= 1,
            b > 0,
    ;
    let r = a - (n - 1) * b;
    if r == b {
        lemma_fundamental_div_mod_converse(a, b, n, 0);
    } else {
        lemma_fundamental_div_mod_converse(a, b, n - 1, r);
    }
}

/// The bodies that are accepted for all parts of an announced file, each under the
/// token that was handed out for its part, have together exactly the size that was
/// announced.
pub proof fn accepted_parts_make_up_the_file(
    db: &mut Database,
    config: &Config,
    backend_type: &str,
    request: &InitUploadRequest,
    id: &str,
    start: Instant,
    outcome: Result<InitUploadResponse, AppError>,
    jwt_secret: &str,
    states: Seq<&Database>,
    headers: Seq<&HeaderMap>,
    bodies: Seq<&[u8]>,
    times: Seq<i64>,
    outcomes: Seq<Result<AcceptedPart, AppError>>,
    n: int,
)
    requires
        old(db).wf(),
        announceable(*config, *request, start),
        call_ensures(init_upload_with, (db, config, backend_type, request, id, start), outcome),
        outcome is Ok,
        0 < config.chunk_size_bytes <= i64::MAX,
        (outcome->Ok_0.total_parts - 1) * config.chunk_size_bytes < request.total_size
            <= outcome->Ok_0.total_parts * config.chunk_size_bytes,
        0 <= n <= outcome->Ok_0.total_parts,
        request.total_size >= 0,
        jwt_secret@ == config.jwt_secret@,
        bodies.len() == outcome->Ok_0.total_parts,
        forall|i: int|
            0 <= i < outcome->Ok_0.total_parts ==> (#[trigger] outcomes[i]) is Ok && header_value(
                *headers[i],
                "authorization"@,
            ) == Some("Bearer "@ + outcome->Ok_0.parts@[i].token@) && call_ensures(
                upload_part_at,
                (states[i], jwt_secret, id, i as i32, headers[i], bodies[i], times[i]),
                outcomes[i],
            ),
    ensures
        concatenated(Seq::new(n as nat, |i: int| bodies[i]@)).len() == if n
            < outcome->Ok_0.total_parts {
            n * config.chunk_size_bytes
        } else {
            request.total_size as int
        },
    decreases n,
{
    let response = outcome->Ok_0;
    let b = config.chunk_size_bytes as int;
    let texts = Seq::new(n as nat, |i: int| bodies[i]@);
    if n > 0 {
        accepted_parts_make_up_the_file(
            db,
            config,
            backend_type,
            request,
            id,
            start,
            outcome,
            jwt_secret,
            states,
            headers,
            bodies,
            times,
            outcomes,
            n - 1,
        );
        assert(texts.drop_last() =~= Seq::new((n - 1) as nat, |i: int| bodies[i]@));
        assert(texts.last() == bodies[n - 1]@);
        let i = n - 1;
        assert(outcomes[i] is Ok);
        parts_divide_the_file(db, config, backend_type, request, id, start, outcome, i);
        accepted_parts_were_granted(
            states[i],
            jwt_secret,
            id,
            i as i32,
            headers[i],
            bodies[i],
            times[i],
            outcomes[i],
            response.parts@[i].token@,
        );
        assert(n * b == (n - 1) * b + b) by (nonlinear_arith);
    } else {
        assert(0 * b == 0) by (nonlinear_arith);
    }
}

/// Of a name directly below the root the directory that is asked for is the root.
pub proof fn names_below_the_root_are_split_there(
    db: &mut Database,
    config: &Config,
    backend_type: &str,
    request: &InitUploadRequest,
    id: &str,
    start: Instant,
    outcome: Result<InitUploadResponse, AppError>,
    name: Seq<char>,
)
    requires
        old(db).wf(),
        call_ensures(init_upload_with, (db, config, backend_type, request, id, start), outcome),
        outcome is Ok,
        request.filename@ == "/"@ + name,
        name.len() > 0,
        forall|i: int| 0 <= i < name.len() ==> name[i] != '/',
        name != seq!['.'],
        name != seq!['.', '.'],
    ensures
        upload(final(db)@, id@) matches Some(u) && u.filename == name && u.target_path == Some(
            "/"@,
        ),
{
    announced_files_are_found(
        old(db)@,
        final(db)@,
        outcome->Ok_0,
        *config,
        backend_type@,
        *request,
        id@,
        start,
    );
    reveal_strlit("/");
    assert(joined("/"@, name) =~= "/"@ + name);
    joining_sets_the_file_name("/"@, name);
    assert(joined("/"@, Seq::empty()) =~= "/"@);
}

/// Whatever name is announced, the file is named by its last component, or by the
/// whole where that is no name, and the directory that was asked for is what stands
/// before the last component, if anything does.
pub proof fn announced_names_are_taken_apart(
    db: &mut Database,
    config: &Config,
    backend_type: &str,
    request: &InitUploadRequest,
    id: &str,
    start: Instant,
    outcome: Result<InitUploadResponse, AppError>,
    announced: &str,
    name: Option<String>,
    directory: Option<String>,
)
    requires
        old(db).wf(),
        call_ensures(init_upload_with, (db, config, backend_type, request, id, start), outcome),
        outcome is Ok,
        announced@ == request.filename@,
        call_ensures(file_name_of, (announced,), name),
        call_ensures(parent_of, (announced,), directory),
    ensures
        upload(final(db)@, id@) matches Some(u) && {
            &&& name matches Some(text) ==> u.filename == text@
            &&& name is None ==> u.filename == announced@
            &&& directory matches Some(text) ==> text@.len() > 0 ==> u.target_path == Some(text@)
            &&& directory is None || directory->0@.len() == 0 ==> u.target_path is None
        },
{
    announced_files_are_found(
        old(db)@,
        final(db)@,
        outcome->Ok_0,
        *config,
        backend_type@,
        *request,
        id@,
        start,
    );
}

} // verus!
