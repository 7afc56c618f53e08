//! `POST /upload/init`: announce a file and get a token for each of its parts.
use crate::auth::api_key::{key_refusal, ApiKeyAuth};
use crate::auth::jwt::{made_of, signed_claims, token_hash, ClaimsView, PartTokenGenerator};
use crate::cast::{signed, to_signed, to_unsigned, unsigned};
use crate::clock::{is_date, now, rfc3339, rfc3339_text, Instant, EARLIEST, LATEST};
use crate::config::Config;
use crate::db::repository::part_views;
use crate::db::schema::{PartStatus, PartView, Upload, UploadPart, UploadStatus, UploadView};
use crate::db::tables::{fresh_parts_are_all_taken, unknown_ids_have_no_parts, upload, Tables};
use crate::db::Database;
use crate::error::{AppError, ErrorView};
use crate::handlers::plan::{count_parts, divisible, part_size, parts_needed, size_of_part};
use crate::ids::{is_uuid_text, new_id};
use crate::paths::{file_name, file_name_of, parent, parent_of};
use crate::text::{copy_option, option_view};
use axum::http::HeaderMap;
use vstd::prelude::*;

verus! {

/// The announcement of a file. The name may begin with a path, as in
/// `videos/2024/movie.mp4`.
#[derive(Debug)]
pub struct InitUploadRequest {
    pub filename: String,
    pub total_size: i64,
    pub checksum_sha256: Option<String>,
    pub webhook_url: Option<String>,
}

/// The answer to an announcement.
#[derive(Debug)]
pub struct InitUploadResponse {
    pub file_id: String,
    pub total_parts: i32,
    pub chunk_size: i64,
    pub parts: Vec<PartInfo>,
    pub expires_at: String,
}

/// One part of an announced file, with the token that its upload must carry.
#[derive(Debug)]
pub struct PartInfo {
    pub part: i32,
    pub token: String,
    pub status: String,
}

/// The name of the file, without the path before it.
pub open spec fn requested_name(filename: Seq<char>) -> Seq<char> {
    match file_name(filename) {
        Some(name) => name,
        None => filename,
    }
}

/// The path before the name of the file, where there is one.
pub open spec fn requested_target(filename: Seq<char>) -> Option<Seq<char>> {
    match parent(filename) {
        Some(path) => if path.len() > 0 {
            Some(path)
        } else {
            None
        },
        None => None,
    }
}

/// The second at which an upload expires.
pub open spec fn expiry(config: Config, start: Instant) -> int {
    start.seconds + signed(config.upload_ttl_hours) * 3600
}

/// The number of parts of the announced file.
pub open spec fn part_count(config: Config, request: InitUploadRequest) -> int {
    parts_needed(request.total_size as int, signed(config.chunk_size_bytes))
}

/// The row of a new upload.
pub open spec fn new_upload(
    config: Config,
    backend_type: Seq<char>,
    request: InitUploadRequest,
    id: Seq<char>,
    start: Instant,
) -> UploadView {
    UploadView {
        id,
        filename: requested_name(request.filename@),
        total_size: request.total_size,
        chunk_size: signed(config.chunk_size_bytes) as i64,
        total_parts: part_count(config, request) as i32,
        status: UploadStatus::Pending,
        storage_backend: backend_type,
        target_path: requested_target(request.filename@),
        final_path: None,
        checksum_sha256: option_view(request.checksum_sha256),
        webhook_url: option_view(request.webhook_url),
        finalization_started_at: None,
        finalization_updated_at: None,
        finalization_error: None,
        finalizing_progress_percent: 0,
        created_at: start.seconds,
        updated_at: start.seconds,
        expires_at: expiry(config, start) as i64,
    }
}

/// What the token of one part grants.
pub open spec fn claims_for(
    config: Config,
    request: InitUploadRequest,
    id: Seq<char>,
    start: Instant,
    number: int,
) -> ClaimsView {
    ClaimsView {
        upload_id: id,
        part_number: number as i32,
        expected_size: part_size(
            request.total_size as int,
            signed(config.chunk_size_bytes),
            number,
            part_count(config, request),
        ) as i64,
        exp: unsigned(expiry(config, start) as i64) as u64,
    }
}

/// The row of one part of a new upload, whose token is `token`.
pub open spec fn new_part(
    config: Config,
    request: InitUploadRequest,
    id: Seq<char>,
    start: Instant,
    number: int,
    token: Seq<char>,
) -> PartView {
    let claims = claims_for(config, request, id, start, number);
    PartView {
        upload_id: id,
        part_number: claims.part_number,
        token_hash: token_hash(token),
        status: PartStatus::Pending,
        size: claims.expected_size,
        checksum_sha256: None,
        uploaded_at: None,
    }
}

/// The file can be divided into parts, and its expiry is a date.
pub open spec fn announceable(config: Config, request: InitUploadRequest, start: Instant) -> bool {
    &&& divisible(request.total_size as int, signed(config.chunk_size_bytes))
    &&& is_date(expiry(config, start))
    &&& start.nanos < 1_000_000_000
}

/// The announcement was recorded: the upload and its parts were added to the
/// tables, and the answer holds a token for each part.
pub open spec fn recorded(
    before: Tables,
    end: Tables,
    response: InitUploadResponse,
    config: Config,
    backend_type: Seq<char>,
    request: InitUploadRequest,
    id: Seq<char>,
    start: Instant,
) -> bool {
    let count = part_count(config, request);
    &&& upload(before, id) is None
    &&& end.uploads == before.uploads.push(new_upload(config, backend_type, request, id, start))
    &&& end.parts == before.parts + Seq::new(
        count as nat,
        |i: int| new_part(config, request, id, start, i, response.parts@[i].token@),
    )
    &&& response.file_id@ == id
    &&& response.total_parts == count
    &&& response.chunk_size == signed(config.chunk_size_bytes)
    &&& response.expires_at@ == rfc3339_text(expiry(config, start) as i64, start.nanos)
    &&& response.parts@.len() == count
    &&& forall|i: int|
        0 <= i < count ==> (#[trigger] response.parts@[i]).part == i && response.parts@[i].status@
            == "pending"@ && signed_claims(config.jwt_secret@, response.parts@[i].token@) == Some(
            made_of(claims_for(config, request, id, start, i)),
        )
}

/// What came of an announcement under a given id at a given time.
pub open spec fn announced(
    before: Tables,
    end: Tables,
    outcome: Result<InitUploadResponse, AppError>,
    config: Config,
    backend_type: Seq<char>,
    request: InitUploadRequest,
    id: Seq<char>,
    start: Instant,
) -> bool {
    match outcome {
        Ok(response) => recorded(
            before,
            end,
            response,
            config,
            backend_type,
            request,
            id,
            start,
        ),
        Err(e) => upload(before, id) is Some && end == before && e@ == ErrorView::Database(
            "UNIQUE constraint failed: uploads.id"@,
        ),
    }
}

/// What is answered to an announcement under a given id at a given time: nothing,
/// with the tables as they were, where the expiry would be no date.
pub open spec fn answered(
    before: Tables,
    end: Tables,
    answer: Option<Result<InitUploadResponse, AppError>>,
    config: Config,
    backend_type: Seq<char>,
    request: InitUploadRequest,
    id: Seq<char>,
    start: Instant,
) -> bool {
    match answer {
        Some(outcome) => is_date(expiry(config, start)) && announced(
            before,
            end,
            outcome,
            config,
            backend_type,
            request,
            id,
            start,
        ),
        None => !is_date(expiry(config, start)) && end == before,
    }
}

/// Records the announcement of a file under the given id, at the given time, of
/// which the expiry is a date.
pub fn init_upload_with(
    db: &mut Database,
    config: &Config,
    backend_type: &str,
    request: &InitUploadRequest,
    id: &str,
    start: Instant,
) -> (outcome: Result<InitUploadResponse, AppError>)
    requires
        old(db).wf(),
        announceable(*config, *request, start),
    ensures
        final(db).wf(),
        announced(
            old(db)@,
            final(db)@,
            outcome,
            *config,
            backend_type@,
            *request,
            id@,
            start,
        ),
{
    let ghost before = db@;
    let chunk_size: i64 = to_signed(config.chunk_size_bytes);
    let total_parts: i32 = count_parts(request.total_size, chunk_size);
    let hours: i64 = to_signed(config.upload_ttl_hours);
    let expires: i64 = (start.seconds as i128 + hours as i128 * 3600) as i64;
    let filename: String = match file_name_of(request.filename.as_str()) {
        Some(name) => name,
        None => request.filename.clone(),
    };
    let target_path: Option<String> = match parent_of(request.filename.as_str()) {
        Some(path) => if path.as_str().is_empty() {
            None
        } else {
            Some(path)
        },
        None => None,
    };
    let row: Upload = Upload {
        id: id.to_owned(),
        filename,
        total_size: request.total_size,
        chunk_size,
        total_parts,
        status: UploadStatus::Pending,
        storage_backend: backend_type.to_owned(),
        target_path,
        final_path: None,
        checksum_sha256: copy_option(&request.checksum_sha256),
        webhook_url: copy_option(&request.webhook_url),
        finalization_started_at: None,
        finalization_updated_at: None,
        finalization_error: None,
        finalizing_progress_percent: 0,
        created_at: start.seconds,
        updated_at: start.seconds,
        expires_at: expires,
    };
    assert(row@ =~= new_upload(*config, backend_type@, *request, id@, start));
    if let Err(e) = db.create_upload(&row) {
        return Err(e);
    }
    let ghost mid = db@;
    let generator: PartTokenGenerator = PartTokenGenerator::new(config.jwt_secret.as_str());
    let mut parts: Vec<PartInfo> = Vec::new();
    let mut rows: Vec<UploadPart> = Vec::new();
    let mut number: i32 = 0;
    while number < total_parts
        invariant
            db.wf(),
            db@ == mid,
            0 <= number <= total_parts,
            total_parts > 0 ==> chunk_size != 0,
            chunk_size == signed(config.chunk_size_bytes),
            total_parts == part_count(*config, *request),
            expires == expiry(*config, start),
            generator@ == config.jwt_secret@,
            parts@.len() == number,
            rows@.len() == number,
            forall|i: int|
                0 <= i < number ==> (#[trigger] parts@[i]).part == i && parts@[i].status@
                    == "pending"@ && signed_claims(config.jwt_secret@, parts@[i].token@) == Some(
                    made_of(claims_for(*config, *request, id@, start, i)),
                ),
            forall|i: int|
                0 <= i < number ==> (#[trigger] rows@[i])@ == new_part(
                    *config,
                    *request,
                    id@,
                    start,
                    i,
                    parts@[i].token@,
                ),
        decreases total_parts - number,
    {
        let size: i64 = size_of_part(request.total_size, chunk_size, number, total_parts);
        let token: String = match generator.generate_token(id, number, size, to_unsigned(expires)) {
            Ok(token) => token,
            Err(e) => {
                assert(false);
                return Err(e);
            },
        };
        let ghost view = token@;
        rows.push(
            UploadPart {
                upload_id: id.to_owned(),
                part_number: number,
                token_hash: PartTokenGenerator::hash_token(token.as_str()),
                status: PartStatus::Pending,
                size,
                checksum_sha256: None,
                uploaded_at: None,
            },
        );
        parts.push(PartInfo { part: number, token, status: "pending".to_owned() });
        assert(rows@[number as int]@ =~= new_part(
            *config,
            *request,
            id@,
            start,
            number as int,
            view,
        ));
        number += 1;
    }
    let ghost views = part_views(rows@);
    proof {
        unknown_ids_have_no_parts(before, id@);
        assert(mid.parts == before.parts);
        assert(mid.uploads.last().id == id@);
        assert(upload(mid, id@) is Some);
        fresh_parts_are_all_taken(mid, views, id@, 0);
    }
    if let Err(e) = db.create_parts(&rows) {
        return Err(e);
    }
    proof {
        assert(views.take(views.len() as int) =~= views);
        assert(db@.parts =~= before.parts + Seq::new(
            total_parts as nat,
            |i: int| new_part(*config, *request, id@, start, i, parts@[i].token@),
        ));
    }
    let expires_at: String = match rfc3339(expires, start.nanos) {
        Some(text) => text,
        None => String::new(),
    };
    Ok(InitUploadResponse { file_id: id.to_owned(), total_parts, chunk_size, parts, expires_at })
}

/// Records the announcement of a file under the given id, at the given time.
/// There is no answer where the expiry would be no date.
pub fn init_upload_at(
    db: &mut Database,
    config: &Config,
    backend_type: &str,
    request: &InitUploadRequest,
    id: &str,
    start: Instant,
) -> (answer: Option<Result<InitUploadResponse, AppError>>)
    requires
        old(db).wf(),
        divisible(request.total_size as int, signed(config.chunk_size_bytes)),
        start.nanos < 1_000_000_000,
    ensures
        final(db).wf(),
        answer is None <==> !is_date(expiry(*config, start)),
        answered(
            old(db)@,
            final(db)@,
            answer,
            *config,
            backend_type@,
            *request,
            id@,
            start,
        ),
{
    let hours: i64 = to_signed(config.upload_ttl_hours);
    let expires: i128 = start.seconds as i128 + hours as i128 * 3600;
    assert(expires == expiry(*config, start));
    if expires < EARLIEST as i128 || expires > LATEST as i128 {
        return None;
    }
    Some(init_upload_with(db, config, backend_type, request, id, start))
}

/// Records the announcement of a file under a new id, now. There is no answer
/// where the expiry would be no date.
pub fn init_upload(
    db: &mut Database,
    config: &Config,
    backend_type: &str,
    headers: &HeaderMap,
    request: &InitUploadRequest,
) -> (answer: Option<Result<InitUploadResponse, AppError>>)
    requires
        old(db).wf(),
        divisible(request.total_size as int, signed(config.chunk_size_bytes)),
    ensures
        final(db).wf(),
        match key_refusal(*headers, config.api_key@) {
            Some(refusal) => final(db)@ == old(db)@ && (answer matches Some(Err(e)) && e@
                == refusal),
            None => exists|id: Seq<char>, start: Instant|
                #![trigger is_uuid_text(id), expiry(*config, start)]
                is_uuid_text(id) && 0 <= start.seconds <= LATEST && start.nanos < 1_000_000_000
                    && answered(
                    old(db)@,
                    final(db)@,
                    answer,
                    *config,
                    backend_type@,
                    *request,
                    id,
                    start,
                ),
        },
{
    if let Err(e) = ApiKeyAuth::authorize(headers, config.api_key.as_str()) {
        return Some(Err(e));
    }
    let id: String = new_id();
    let start: Instant = now();
    let ghost before = db@;
    let answer: Option<Result<InitUploadResponse, AppError>> = init_upload_at(
        db,
        config,
        backend_type,
        request,
        id.as_str(),
        start,
    );
    assert(is_uuid_text(id@));
    assert(answered(before, db@, answer, *config, backend_type@, *request, id@, start));
    assert(expiry(*config, start) == expiry(*config, start));
    answer
}

} // verus!
