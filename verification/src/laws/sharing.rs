//! How files on a share are reached.
use crate::config::Config;
use crate::db::schema::Upload;
use crate::decimal::{decimal, digits_have_their_value, is_digit};
use crate::error::{AppError, ErrorView};
use crate::paths::joined;
use crate::storage::smb::{
    normalized_paths_stay_below_the_base, ResourceKind, SmbConfig, SmbStorage,
};
use crate::storage::smb::ready::ReadyCheck;
use crate::storage::smb::requests::{
    delete_failure, file_size, opened_existing, opened_for_delete, opened_for_write, rename_failure,
    DeleteStep,
};
use crate::storage::smb::unc::{first_slash, UncAddress};
use crate::text::{
    contains, ends_with, lowercase, occurs, occurs_at, option_view, starts_with, strip_prefix,
    trim_separators, trimmed, trimmed_has_no_outer_separator, trimming_cuts_the_ends,
    trimming_keeps_a_bare_text,
};
use vstd::prelude::*;

verus! {

/// A text that neither begins nor ends with a slash of either kind.
pub open spec fn bare(s: Seq<char>) -> bool {
    s.len() > 0 ==> s[0] != '/' && s[0] != '\\' && s.last() != '/' && s.last() != '\\'
}

// ---------------------------------------------------------------------------
// Reaching the share
// ---------------------------------------------------------------------------
/// The share is reached as the settings say: by `\\host\share`, with the port
/// behind the host where it is not 445, with the user's name and password, and
/// below the path that was set, without slashes around it.
pub proof fn shares_are_reached_as_set(settings: &Config, config: SmbConfig)
    requires
        call_ensures(SmbConfig::new, (settings,), config),
    ensures
        config.host@ == settings.smb_host@,
        config.share@ == settings.smb_share@,
        config.port == settings.smb_port,
        config.username@ == settings.smb_user@,
        config.password@ == settings.smb_pass@,
        settings.smb_port == 445 ==> config.unc_path@ == "\\\\"@ + settings.smb_host@ + "\\"@
            + settings.smb_share@,
        settings.smb_port != 445 ==> config.unc_path@ == "\\\\"@ + settings.smb_host@ + ":"@
            + decimal(settings.smb_port as int) + "\\"@ + settings.smb_share@,
        bare(settings.smb_path@) ==> config.base_path@ == settings.smb_path@,
        config.base_path@.len() > 0 ==> config.base_path@[0] != '/' && config.base_path@.last()
            != '/',
{
    trimmed_has_no_outer_separator(settings.smb_path@, false);
    if bare(settings.smb_path@) {
        trimming_keeps_a_bare_text(settings.smb_path@, false);
    }
}

/// Storage on a share is set up for the share that the settings name, with its
/// parts in `parts` below the directory for temporary files.
pub proof fn shared_storage_is_set_up_as_told(
    settings: &Config,
    temp: &str,
    storage: SmbStorage,
)
    requires
        call_ensures(SmbStorage::new, (settings, temp), storage),
        temp@.len() > 0,
        temp@.last() != '/',
    ensures
        storage.parts_path@ == temp@ + "/parts"@,
        storage.smb_config.host@ == settings.smb_host@,
        storage.smb_config.share@ == settings.smb_share@,
        storage.smb_config.port == settings.smb_port,
        storage.smb_config.username@ == settings.smb_user@,
        storage.smb_config.password@ == settings.smb_pass@,
        bare(settings.smb_path@) ==> storage.smb_config.base_path@ == settings.smb_path@,
{
    reveal_strlit("parts");
    reveal_strlit("/parts");
    assert(joined(temp@, "parts"@) =~= temp@ + "/parts"@);
    if bare(settings.smb_path@) {
        trimming_keeps_a_bare_text(settings.smb_path@, false);
    }
}

proof fn lemma_first_slash(front: Seq<char>, back: Seq<char>)
    requires
        forall|i: int| 0 <= i < front.len() ==> front[i] != '/' && front[i] != '\\',
        back.len() > 0 ==> back[0] == '\\',
    ensures
        first_slash(front + back) == front.len(),
    decreases front.len(),
{
    let all = front + back;
    if front.len() > 0 {
        assert(all[0] == front[0]);
        assert(all.skip(1) =~= front.skip(1) + back);
        assert forall|i: int| 0 <= i < front.skip(1).len() implies front.skip(1)[i] != '/'
            && front.skip(1)[i] != '\\' by {
            assert(front.skip(1)[i] == front[i + 1]);
        }
        lemma_first_slash(front.skip(1), back);
    } else {
        assert(all =~= back);
    }
}

/// The share's address names the host, with the port where it is not 445, as the
/// server and the share as the share, where neither holds a slash.
pub proof fn shares_have_their_address(
    settings: &Config,
    config: SmbConfig,
    reached: &SmbConfig,
    outcome: Result<UncAddress, AppError>,
)
    requires
        call_ensures(SmbConfig::new, (settings,), config),
        *reached == config,
        call_ensures(SmbConfig::share_address, (reached,), outcome),
        forall|i: int|
            0 <= i < settings.smb_host@.len() ==> settings.smb_host@[i] != '/'
                && settings.smb_host@[i] != '\\',
        forall|i: int|
            0 <= i < settings.smb_share@.len() ==> settings.smb_share@[i] != '/'
                && settings.smb_share@[i] != '\\',
    ensures
        outcome matches Ok(address) && address.server@ == if settings.smb_port == 445 {
            settings.smb_host@
        } else {
            settings.smb_host@ + ":"@ + decimal(settings.smb_port as int)
        } && option_view(address.share) == Some(settings.smb_share@) && address.path is None,
{
    reveal_strlit("\\\\");
    reveal_strlit("\\");
    reveal_strlit(":");
    let port = decimal(settings.smb_port as int);
    let host = if settings.smb_port == 445 {
        settings.smb_host@
    } else {
        settings.smb_host@ + ":"@ + port
    };
    let share = settings.smb_share@;
    let whole = config.unc_path@;
    let rest = "\\"@ + share;
    digits_have_their_value(settings.smb_port as nat);
    assert forall|i: int| 0 <= i < host.len() implies host[i] != '/' && host[i] != '\\' by {
        if i < settings.smb_host@.len() {
            assert(host[i] == settings.smb_host@[i]);
        } else if i > settings.smb_host@.len() {
            assert(host[i] == port[i - settings.smb_host@.len() - 1]);
            assert(is_digit(port[i - settings.smb_host@.len() - 1]));
        }
    }
    assert(whole[0] == '\\' && whole[1] == '\\');
    assert(whole.skip(2) =~= host + rest);
    lemma_first_slash(host, rest);
    assert((host + rest).skip(host.len() as int + 1) =~= share);
    assert((host + rest).take(host.len() as int) =~= host);
    lemma_first_slash(share, Seq::empty());
    assert(share + Seq::<char>::empty() =~= share);
}

/// The address of a path within the share names the share's own server and share,
/// and the path below the base path.
pub proof fn paths_have_their_address_within_the_share(
    config: &SmbConfig,
    path: &str,
    share: Result<UncAddress, AppError>,
    whole: String,
    outcome: Result<UncAddress, AppError>,
)
    requires
        call_ensures(SmbConfig::share_address, (config,), share),
        call_ensures(SmbConfig::normalize_relative_path, (config, path), whole),
        call_ensures(SmbConfig::build_unc_path_from_relative, (config, path), outcome),
    ensures
        outcome is Ok == share is Ok,
        outcome matches Ok(address) ==> address.server@ == share->Ok_0.server@ && option_view(
            address.share,
        ) == option_view(share->Ok_0.share) && option_view(address.path) == Some(whole@),
        outcome matches Err(e) ==> e@ == share->Err_0@,
        share matches Err(e) ==> e@ == ErrorView::Storage(
            "Invalid UNC path "@ + config.unc_path@ + ": "@
                + "Invalid argument: UNC path must start with two slashes/backslashes"@,
        ),
        share is Ok == (config.unc_path@.len() >= 2 && config.unc_path@[0] == config.unc_path@[1]
            && (config.unc_path@[0] == '/' || config.unc_path@[0] == '\\')),
{
}

/// What is to be deleted is looked for within the share, unless its path is itself
/// the address of a share: two slashes of one kind in front.
pub proof fn deleted_paths_lie_within_the_share(
    config: &SmbConfig,
    path: &str,
    within: Result<UncAddress, AppError>,
    outcome: Result<UncAddress, AppError>,
)
    requires
        call_ensures(SmbConfig::build_unc_path_from_relative, (config, path), within),
        call_ensures(SmbConfig::delete_target, (config, path), outcome),
        !(path@.len() >= 2 && ((path@[0] == '/' && path@[1] == '/') || (path@[0] == '\\'
            && path@[1] == '\\'))),
    ensures
        outcome is Ok == within is Ok,
        outcome matches Ok(address) ==> address@ == within->Ok_0@,
{
}

// ---------------------------------------------------------------------------
// Paths within the share
// ---------------------------------------------------------------------------
/// A relative path stands for the path below the base path. Where it begins with
/// the base path it stands for itself. Where the base path ends with `files`, a
/// leading `files` stands for the base path.
pub proof fn relative_paths_lie_below_the_base(
    config: &SmbConfig,
    path: &str,
    whole: String,
)
    requires
        call_ensures(SmbConfig::normalize_relative_path, (config, path), whole),
        bare(path@),
        bare(config.base_path@),
    ensures
        ({
            let base = config.base_path@;
            &&& path@.len() == 0 ==> whole@ == base
            &&& base.len() == 0 ==> whole@ == path@
            &&& path@.len() > 0 && base.len() > 0 ==> {
                let within = path@ == base || (base + "/"@).is_prefix_of(path@);
                let alias = !within && "files"@.is_suffix_of(base);
                &&& within ==> whole@ == path@
                &&& alias && path@ == "files"@ ==> whole@ == base
                &&& alias ==> forall|rest: Seq<char>|
                    path@ == #[trigger] ("files/"@ + rest) ==> whole@ == base + "/"@ + rest
                &&& !within && !(alias && (path@ == "files"@ || "files/"@.is_prefix_of(path@)))
                    ==> whole@ == base + "/"@ + path@
            }
        }),
{
    let base = config.base_path@;
    trimming_keeps_a_bare_text(path@, true);
    trimming_keeps_a_bare_text(base, false);
    reveal_strlit("files/");
    reveal_strlit("files");
    assert forall|rest: Seq<char>|
        path@ == #[trigger] ("files/"@ + rest) implies "files/"@.is_prefix_of(path@)
        && path@.skip("files/"@.len() as int) == rest && (path@.len() == 6 ==> rest.len()
        == 0) by {
        assert(path@.take(6) =~= "files/"@);
        assert(path@.skip(6) =~= rest);
        if path@.len() == 6 {
            assert(path@.last() == '/');
        }
    }
    if path@.len() == 6 && "files/"@.is_prefix_of(path@) {
        assert(path@[5] == "files/"@[5]);
    }
}

/// Naming a path within the share a second time changes nothing.
pub proof fn paths_within_the_share_stay(
    config: &SmbConfig,
    path: &str,
    whole: String,
    again: &str,
    twice: String,
)
    requires
        call_ensures(SmbConfig::normalize_relative_path, (config, path), whole),
        again@ == whole@,
        call_ensures(SmbConfig::normalize_relative_path, (config, again), twice),
        bare(path@),
        bare(config.base_path@),
    ensures
        twice@ == whole@,
        config.base_path@.len() > 0 ==> whole@ == config.base_path@ || (config.base_path@
            + "/"@).is_prefix_of(whole@),
{
    reveal_strlit("/");
    reveal_strlit("files/");
    let base = config.base_path@;
    trimming_keeps_a_bare_text(path@, true);
    trimming_keeps_a_bare_text(base, false);
    if base.len() > 0 {
        normalized_paths_stay_below_the_base(base, path@);
        let below = base + "/"@;
        if whole@ == base {
            trimming_keeps_a_bare_text(base, true);
        } else {
            assert(whole@[0] == below[0]);
            assert(whole@.last() == path@.last());
            trimming_keeps_a_bare_text(whole@, true);
        }
    }
}

// ---------------------------------------------------------------------------
// Failures
// ---------------------------------------------------------------------------
/// A failure to connect is reported with what went wrong, what it probably means
/// and how the share was to be reached.
pub proof fn failed_connections_are_diagnosed(
    config: &SmbConfig,
    error: &str,
    text: String,
    failure: AppError,
)
    requires
        call_ensures(SmbConfig::diagnose_connection_error, (config, error), text),
        call_ensures(SmbConfig::connection_failure, (config, error), failure),
    ensures
        failure@ == ErrorView::Storage(
            "Failed to connect to SMB server: "@ + error@ + "\n\nDiagnosis: "@ + text@
                + "\n\nConfiguration:\n  - Host: "@ + config.host@ + ":"@ + decimal(
                config.port as int,
            ) + "\n  - Share: "@ + config.share@ + "\n  - User: "@ + config.username@
                + "\n  - UNC Path: "@ + config.unc_path@,
        ),
        ({
            let low = lowercase(error@);
            let network = occurs(low, "no route to host"@) || occurs(low, "connection refused"@);
            let time = occurs(low, "timeout"@) || occurs(low, "timed out"@);
            let login = occurs(low, "access denied"@) || occurs(low, "authentication"@) || occurs(
                low,
                "login"@,
            );
            let absent = occurs(low, "not found"@) || occurs(low, "does not exist"@);
            let denied = occurs(low, "permission"@);
            &&& network ==> text@ == "Network connectivity issue. Cannot reach SMB server at "@
                + config.unc_path@
            &&& !network && time ==> text@
                == "Connection timeout. Server may be unreachable or firewall blocking port"@
            &&& !network && !time && login ==> text@ == "Authentication failed. Check username '"@
                + config.username@ + "' and password"@
            &&& !network && !time && !login && absent ==> text@ == "SMB share '"@ + config.share@
                + "' not found on server "@ + config.host@
            &&& !network && !time && !login && !absent && denied ==> text@
                == "Permission denied. User '"@ + config.username@
                + "' may not have access to this share"@
            &&& !network && !time && !login && !absent && !denied ==> text@
                == "Connection error: "@ + error@
        }),
{
}

/// The share is healthy exactly where a connection could be made.
pub proof fn shares_are_healthy_when_reached(
    config: &SmbConfig,
    failure: Option<&str>,
    answer: (bool, String),
)
    requires
        call_ensures(SmbConfig::health_message, (config, failure), answer),
    ensures
        answer.0 == failure is None,
        failure is None ==> answer.1@ == "SMB connection established"@,
        failure matches Some(error) ==> answer.1@ == "SMB unavailable: "@ + error@ + " ("@
            + config.host@ + ":"@ + decimal(config.port as int) + ")"@,
{
}

/// What was opened counts as a file only where it is one; a directory or anything
/// else is refused, and so is what could not be opened.
pub proof fn only_files_are_opened(
    path: &str,
    result: Result<ResourceKind, String>,
    write: Result<(), AppError>,
    existing: Result<(), AppError>,
)
    requires
        call_ensures(opened_for_write, (path, result), write),
        call_ensures(opened_existing, (path, result), existing),
    ensures
        write is Ok == (result matches Ok(kind) && kind == ResourceKind::File),
        existing is Ok == (result matches Ok(kind) && kind == ResourceKind::File),
        result is Ok && write is Err ==> write->Err_0@ == ErrorView::Storage(
            "Expected file resource for "@ + path@,
        ) && existing->Err_0@ == ErrorView::Storage("Expected file resource for "@ + path@),
        result matches Err(e) ==> write->Err_0@ == ErrorView::Storage(
            "Failed to open/create SMB file "@ + path@ + ": "@ + e@,
        ) && existing->Err_0@ == ErrorView::Storage(
            "Failed to open SMB file "@ + path@ + ": "@ + e@,
        ),
{
    if result is Err {
        assert("Failed to "@ + "open/create"@ + " SMB file "@ =~= "Failed to open/create SMB file "@)
            by {
            reveal_strlit("Failed to ");
            reveal_strlit("open/create");
            reveal_strlit(" SMB file ");
            reveal_strlit("Failed to open/create SMB file ");
        }
        assert("Failed to "@ + "open"@ + " SMB file "@ =~= "Failed to open SMB file "@) by {
            reveal_strlit("Failed to ");
            reveal_strlit("open");
            reveal_strlit(" SMB file ");
            reveal_strlit("Failed to open SMB file ");
        }
    }
}

/// A file is as large as the server says; what is not a file, or is not there, has
/// size 0.
pub proof fn files_are_as_large_as_the_server_says(
    found: Option<ResourceKind>,
    answer: Result<u64, String>,
    outcome: Result<u64, AppError>,
)
    requires
        call_ensures(file_size, (found, answer), outcome),
    ensures
        found != Some(ResourceKind::File) ==> (outcome matches Ok(size) && size == 0),
        found == Some(ResourceKind::File) && answer is Ok ==> (outcome matches Ok(size) && size
            == answer->Ok_0),
        found == Some(ResourceKind::File) && answer is Err ==> (outcome matches Err(e) && e@
            == ErrorView::Storage("Failed to query SMB file info: "@ + answer->Err_0@)),
{
}

/// What is to be deleted is marked where it is there, as the file or the directory
/// that it is. Where the failure says that it is not there, there is nothing to do;
/// any other failure is reported.
pub proof fn what_is_there_is_deleted(
    result: Result<ResourceKind, String>,
    step: DeleteStep,
)
    requires
        call_ensures(opened_for_delete, (result,), step),
    ensures
        result matches Ok(kind) ==> {
            &&& kind == ResourceKind::File ==> (step matches DeleteStep::Mark { is_file }
                && is_file)
            &&& kind == ResourceKind::Directory ==> (step matches DeleteStep::Mark { is_file }
                && !is_file)
            &&& kind == ResourceKind::Other ==> (step matches DeleteStep::Fail(e) && e@
                == ErrorView::Storage("Unexpected SMB resource type for delete"@))
        },
        result matches Err(error) ==> {
            let low = lowercase(error@);
            let absent = occurs(low, "not found"@) || occurs(low, "does not exist"@);
            &&& absent ==> step is Gone
            &&& !absent ==> (step matches DeleteStep::Fail(e) && e@ == ErrorView::Storage(
                "Failed to open SMB path for delete: "@ + error@,
            ))
        },
{
}

/// That something could not be deleted or renamed is reported with the reason.
pub proof fn failed_deletions_are_reported(
    is_file: bool,
    error: &str,
    deletion: AppError,
    renaming: AppError,
)
    requires
        call_ensures(delete_failure, (is_file, error), deletion),
        call_ensures(rename_failure, (error,), renaming),
    ensures
        is_file ==> deletion@ == ErrorView::Storage("Failed to delete SMB file: "@ + error@),
        !is_file ==> deletion@ == ErrorView::Storage("Failed to delete SMB directory: "@ + error@),
        renaming@ == ErrorView::Storage("Failed to rename SMB partial file: "@ + error@),
{
}

// ---------------------------------------------------------------------------
// Whether the parts are there
// ---------------------------------------------------------------------------
/// The check of an upload's parts begins with the first, with nothing counted, and
/// goes by the upload's own size and number of parts.
pub proof fn checks_begin_with_the_first_part(
    storage: &SmbStorage,
    upload: &Upload,
    check: ReadyCheck,
)
    requires
        call_ensures(ReadyCheck::begin, (storage, upload), check),
    ensures
        check@.next == 0,
        check@.total_bytes == 0,
        check@.total_parts == upload.total_parts,
        upload.total_size >= 0 ==> check@.expected == upload.total_size,
        check@.upload_id == upload.id@,
        check@.parts_path == storage.parts_path@,
{
}

/// Each part is asked for at the path where it is kept, up to the last; its size is
/// added to those before. A part that is not there ends the check with a failure
/// that names it and its upload.
pub proof fn sizes_are_added_part_by_part(
    check: &mut ReadyCheck,
    storage: &SmbStorage,
    upload_id: &str,
    kept: String,
    asked: Option<String>,
    size: Result<u64, String>,
    outcome: Result<(), AppError>,
    before: &ReadyCheck,
)
    requires
        *before == *old(check),
        call_ensures(ReadyCheck::next_part, (before,), asked),
        call_ensures(ReadyCheck::answered, (check, size), outcome),
        storage.parts_path@ == old(check)@.parts_path,
        upload_id@ == old(check)@.upload_id,
        0 <= old(check)@.next < i32::MAX,
        call_ensures(
            SmbStorage::get_local_part_path,
            (storage, upload_id, old(check)@.next as i32),
            kept,
        ),
    ensures
        asked is Some == (old(check)@.next < old(check)@.total_parts),
        asked matches Some(path) ==> path@ == kept@,
        outcome is Ok == size is Ok,
        size matches Ok(n) ==> final(check)@.total_bytes == old(check)@.total_bytes + n
            && final(check)@.next == old(check)@.next + 1,
        final(check)@.total_parts == old(check)@.total_parts,
        final(check)@.expected == old(check)@.expected,
        final(check)@.upload_id == old(check)@.upload_id,
        final(check)@.parts_path == old(check)@.parts_path,
        size matches Err(error) ==> (outcome matches Err(e) && e@ == ErrorView::Storage(
            "Finalization verification failed: part "@ + decimal(old(check)@.next)
                + " missing for upload "@ + old(check)@.upload_id + ": "@ + error@,
        )),
{
}

/// The parts are in order exactly where their sizes add up to the size of the file.
pub proof fn parts_are_in_order_when_the_sizes_add_up(
    check: &ReadyCheck,
    bytes: u64,
    outcome: Result<(), AppError>,
)
    requires
        call_ensures(ReadyCheck::total, (check,), bytes),
        call_ensures(ReadyCheck::finish, (check,), outcome),
    ensures
        bytes == check@.total_bytes,
        outcome is Ok == (check@.total_bytes == check@.expected),
        outcome matches Err(e) ==> e@ == ErrorView::Storage(
            "Finalization verification failed: total parts size mismatch for upload "@
                + check@.upload_id + " (expected "@ + decimal(check@.expected as int) + ", got "@
                + decimal(check@.total_bytes) + ")"@,
        ),
{
}

// ---------------------------------------------------------------------------
// Searching in texts
// ---------------------------------------------------------------------------
/// One text is found in another exactly where it stands between two others.
pub proof fn texts_are_found_where_they_stand(
    hay: &str,
    needle: &str,
    found: bool,
    front: Seq<char>,
    back: Seq<char>,
)
    requires
        call_ensures(contains, (hay, needle), found),
    ensures
        hay@ == front + needle@ + back ==> found,
        found ==> exists|f: Seq<char>, b: Seq<char>| hay@ == #[trigger] (f + needle@ + b),
{
    if hay@ == front + needle@ + back {
        assert(hay@.subrange(front.len() as int, front.len() as int + needle@.len()) =~= needle@);
        assert(occurs_at(hay@, needle@, front.len() as int));
    }
    if found {
        let at = choose|at: int| occurs_at(hay@, needle@, at);
        let f = hay@.take(at);
        let b = hay@.skip(at + needle@.len());
        assert(hay@ =~= f + hay@.subrange(at, at + needle@.len()) + b);
        assert(hay@ == f + needle@ + b);
    }
}

/// A text begins with another exactly where that one and a rest make it up, and
/// then taking the one off leaves the rest; it ends with another exactly where a
/// rest and that one make it up.
pub proof fn fronts_and_backs_make_up_a_text(
    s: &str,
    piece: &str,
    begins: bool,
    ends: bool,
    left: Option<String>,
    rest: Seq<char>,
)
    requires
        call_ensures(starts_with, (s, piece), begins),
        call_ensures(ends_with, (s, piece), ends),
        call_ensures(strip_prefix, (s, piece), left),
    ensures
        s@ == piece@ + rest ==> begins && option_view(left) == Some(rest),
        begins ==> s@ == piece@ + s@.skip(piece@.len() as int),
        s@ == rest + piece@ ==> ends,
        ends ==> s@ == s@.take(s@.len() - piece@.len()) + piece@,
        left is Some == begins,
        left matches Some(t) ==> s@ == piece@ + t@,
{
    if s@ == piece@ + rest {
        assert(s@.take(piece@.len() as int) =~= piece@);
        assert(s@.skip(piece@.len() as int) =~= rest);
    }
    if begins {
        assert(s@ =~= piece@ + s@.skip(piece@.len() as int));
    }
    if s@ == rest + piece@ {
        assert(s@.skip(rest.len() as int) =~= piece@);
        assert(s@.subrange(s@.len() - piece@.len(), s@.len() as int) =~= piece@);
    }
    if ends {
        assert(s@ =~= s@.take(s@.len() - piece@.len()) + piece@);
    }
}

/// `whole` is `core` with slashes of either kind around it, or of the first kind
/// alone where `both` does not say so.
pub open spec fn has_slashes_around(
    whole: Seq<char>,
    core: Seq<char>,
    at: int,
    both: bool,
) -> bool {
    &&& 0 <= at && at + core.len() <= whole.len()
    &&& whole.subrange(at, at + core.len()) == core
    &&& forall|i: int|
        0 <= i < whole.len() && !(at <= i < at + core.len()) ==> #[trigger] whole[i] == '/' || (
        both && whole[i] == '\\')
}

proof fn lemma_trims_to_the_core(whole: Seq<char>, core: Seq<char>, at: int, both: bool)
    requires
        has_slashes_around(whole, core, at, both),
        core.len() > 0,
        core[0] != '/' && core.last() != '/',
        both ==> core[0] != '\\' && core.last() != '\\',
    ensures
        trimmed(whole, both) == core,
{
    trimmed_has_no_outer_separator(whole, both);
    let from = trimming_cuts_the_ends(whole, both);
    let rest = trimmed(whole, both);
    assert(whole.subrange(at, at + core.len())[0] == whole[at]);
    assert(whole.subrange(at, at + core.len()).last() == whole[at + core.len() - 1]);
    assert(from <= at);
    assert(from + rest.len() >= at + core.len());
    assert(rest[0] == whole[from]);
    assert(rest.last() == whole[from + rest.len() - 1]);
    assert(from == at);
    assert(from + rest.len() == at + core.len());
}

/// Slashes of either kind around a relative path make no difference to what it
/// stands for, and slashes around the base path make none either.
pub proof fn outer_slashes_make_no_difference(
    config: &SmbConfig,
    other: &SmbConfig,
    path: &str,
    core: &str,
    whole: String,
    short: String,
    at: int,
    base_at: int,
)
    requires
        call_ensures(SmbConfig::normalize_relative_path, (config, path), whole),
        call_ensures(SmbConfig::normalize_relative_path, (other, core), short),
        core@.len() > 0,
        bare(core@),
        has_slashes_around(path@, core@, at, true),
        other.base_path@.len() > 0,
        bare(other.base_path@),
        has_slashes_around(config.base_path@, other.base_path@, base_at, false),
    ensures
        whole@ == short@,
{
    lemma_trims_to_the_core(path@, core@, at, true);
    lemma_trims_to_the_core(config.base_path@, other.base_path@, base_at, false);
    trimming_keeps_a_bare_text(core@, true);
    trimming_keeps_a_bare_text(other.base_path@, false);
}

/// Slashes around the base path make no difference to where a file is kept on the
/// share.
pub proof fn slashes_around_the_base_make_no_difference(
    storage: &SmbStorage,
    other: &SmbStorage,
    upload_id: &str,
    filename: &str,
    target: Option<&str>,
    path: String,
    same: String,
    at: int,
)
    requires
        call_ensures(SmbStorage::get_smb_file_path, (storage, upload_id, filename, target), path),
        call_ensures(SmbStorage::get_smb_file_path, (other, upload_id, filename, target), same),
        other.smb_config.base_path@.len() > 0,
        bare(other.smb_config.base_path@),
        has_slashes_around(
            storage.smb_config.base_path@,
            other.smb_config.base_path@,
            at,
            false,
        ),
    ensures
        path@ == same@,
{
    lemma_trims_to_the_core(
        storage.smb_config.base_path@,
        other.smb_config.base_path@,
        at,
        false,
    );
    trimming_keeps_a_bare_text(other.smb_config.base_path@, false);
}

/// A path of nothing but slashes stands for the base path.
pub proof fn slashes_alone_stand_for_the_base(
    config: &SmbConfig,
    path: &str,
    whole: String,
)
    requires
        call_ensures(SmbConfig::normalize_relative_path, (config, path), whole),
        forall|i: int| 0 <= i < path@.len() ==> #[trigger] path@[i] == '/' || path@[i] == '\\',
        bare(config.base_path@),
    ensures
        whole@ == config.base_path@,
{
    trimming_keeps_a_bare_text(config.base_path@, false);
    trimmed_has_no_outer_separator(path@, true);
    let from = trimming_cuts_the_ends(path@, true);
    let rest = trimmed(path@, true);
    if rest.len() > 0 {
        assert(rest[0] == path@[from]);
    }
}

/// The path below which files are kept on a share is the one that was set, with the
/// slashes around it taken off.
pub proof fn base_paths_are_trimmed(
    settings: &Config,
    config: SmbConfig,
    path: &str,
    trimmed_path: String,
)
    requires
        call_ensures(SmbConfig::new, (settings,), config),
        path@ == settings.smb_path@,
        call_ensures(trim_separators, (path, false), trimmed_path),
    ensures
        config.base_path@ == trimmed_path@,
{
}

/// What is to be deleted by the address of a share is looked for at that address.
pub proof fn deleted_addresses_stand_for_themselves(
    config: &SmbConfig,
    other: &SmbConfig,
    path: &str,
    share: Result<UncAddress, AppError>,
    outcome: Result<UncAddress, AppError>,
)
    requires
        other.unc_path@ == path@,
        call_ensures(SmbConfig::share_address, (other,), share),
        call_ensures(SmbConfig::delete_target, (config, path), outcome),
        path@.len() >= 2,
        (path@[0] == '/' && path@[1] == '/') || (path@[0] == '\\' && path@[1] == '\\'),
    ensures
        share is Ok,
        outcome is Ok,
        outcome->Ok_0@ == share->Ok_0@,
{
}

} // verus!
