//! Under which names files are kept.
use crate::paths::{
    drop_parents, file_name, file_name_of, has_component, joined, last_start, parent, tidy,
};
use crate::storage::{
    build_response_path, build_stored_name, safe_paths_are_kept, sanitize_target_path, sanitized,
};
use crate::storage::local::{targets_without_parents_are_kept, LocalStorage};
use crate::storage::s3::S3Storage;
use crate::storage::smb::SmbStorage;
use crate::text::{
    is_safe, keep_safe, only_safe, only_safe_keeps_a_safe_text, option_str_view, trim_separators,
    trimmed_has_no_outer_separator, trimming_cuts_the_ends, trimming_keeps_a_bare_text,
    unicode_alphanumeric,
};
use vstd::prelude::*;

verus! {

/// A letter, a digit, a dot, a hyphen or an underscore of ASCII.
pub open spec fn portable(c: char) -> bool {
    'a' <= c <= 'z' || 'A' <= c <= 'Z' || '0' <= c <= '9' || c == '.' || c == '-' || c == '_'
}

/// A name of such characters.
pub open spec fn portable_name(s: Seq<char>) -> bool {
    forall|i: int| 0 <= i < s.len() ==> portable(#[trigger] s[i])
}

/// A path of such characters and slashes that neither begins nor ends with a
/// slash.
pub open spec fn portable_path(s: Seq<char>) -> bool {
    &&& s.len() > 0
    &&& s[0] != '/'
    &&& s.last() != '/'
    &&& forall|i: int| 0 <= i < s.len() ==> portable(#[trigger] s[i]) || s[i] == '/'
}

/// A name that a file can have: some characters, none of them a slash, and not
/// `.` or `..`.
pub open spec fn names_a_file(s: Seq<char>) -> bool {
    &&& s.len() > 0
    &&& forall|i: int| 0 <= i < s.len() ==> s[i] != '/'
    &&& s != seq!['.']
    &&& s != seq!['.', '.']
}

// ---------------------------------------------------------------------------
// Filtering and trimming
// ---------------------------------------------------------------------------
/// Filtering keeps the portable characters, the slash where it is asked for, and
/// beyond ASCII the letters and digits. It drops every other character and leaves
/// the rest in order.
pub proof fn filtering_keeps_the_safe_characters(s: &str, slash: bool, kept: String)
    requires
        call_ensures(keep_safe, (s, slash), kept),
    ensures
        kept@ == s@.filter(
            |c: char|
                portable(c) || (slash && c == '/') || ((c as u32) >= 128 && unicode_alphanumeric(
                    c,
                )),
        ),
{
    lemma_filter(s@, slash);
}

proof fn lemma_filter(s: Seq<char>, slash: bool)
    ensures
        only_safe(s, slash) == s.filter(
            |c: char|
                portable(c) || (slash && c == '/') || ((c as u32) >= 128 && unicode_alphanumeric(
                    c,
                )),
        ),
    decreases s.len(),
{
    reveal(Seq::filter);
    if s.len() > 0 {
        lemma_filter(s.drop_last(), slash);
    }
}

/// A text of portable characters, and of slashes where they are asked for, passes
/// the filter unchanged.
pub proof fn portable_texts_pass_the_filter(s: &str, slash: bool, kept: String)
    requires
        call_ensures(keep_safe, (s, slash), kept),
        forall|i: int|
            0 <= i < s@.len() ==> portable(#[trigger] s@[i]) || (slash && s@[i] == '/'),
    ensures
        kept@ == s@,
{
    lemma_portable(s@, slash);
}

proof fn lemma_portable(s: Seq<char>, slash: bool)
    requires
        forall|i: int| 0 <= i < s.len() ==> portable(#[trigger] s[i]) || (slash && s[i] == '/'),
    ensures
        only_safe(s, slash) == s,
        forall|i: int| 0 <= i < s.len() ==> is_safe(#[trigger] s[i], slash),
{
    assert forall|i: int| 0 <= i < s.len() implies is_safe(#[trigger] s[i], slash) by {
        assert(portable(s[i]) || (slash && s[i] == '/'));
    }
    only_safe_keeps_a_safe_text(s, slash);
}

/// Trimming takes off the slashes at both ends of a text, and the backslashes too
/// where both are asked for, and nothing else.
pub proof fn trimming_takes_off_the_outer_slashes(s: &str, both: bool, bare: String) -> (from: int)
    requires
        call_ensures(trim_separators, (s, both), bare),
    ensures
        0 <= from <= from + bare@.len() <= s@.len(),
        bare@ == s@.subrange(from, from + bare@.len()),
        forall|i: int|
            0 <= i < from || from + bare@.len() <= i < s@.len() ==> (#[trigger] s@[i]) == '/' || (
            both && s@[i] == '\\'),
        bare@.len() > 0 ==> bare@[0] != '/' && bare@.last() != '/',
        bare@.len() > 0 && both ==> bare@[0] != '\\' && bare@.last() != '\\',
{
    trimmed_has_no_outer_separator(s@, both);
    trimming_cuts_the_ends(s@, both)
}

/// A target path of portable characters and slashes that neither begins nor ends
/// with a slash is stored as it was given.
pub proof fn portable_paths_are_kept(path: &str, clean: String)
    requires
        call_ensures(sanitize_target_path, (path,), clean),
        forall|i: int|
            0 <= i < path@.len() ==> ('a' <= #[trigger] path@[i] <= 'z' || 'A' <= path@[i] <= 'Z'
                || '0' <= path@[i] <= '9' || path@[i] == '.' || path@[i] == '-' || path@[i] == '_'
                || path@[i] == '/'),
        path@.len() > 0 ==> path@[0] != '/' && path@.last() != '/',
    ensures
        clean@ == path@,
{
    lemma_portable_path(path@);
}

proof fn lemma_portable_path(path: Seq<char>)
    requires
        forall|i: int| 0 <= i < path.len() ==> portable(#[trigger] path[i]) || path[i] == '/',
        path.len() > 0 ==> path[0] != '/' && path.last() != '/',
    ensures
        sanitized(path) == path,
{
    lemma_portable(path, true);
    safe_paths_are_kept(path);
}

/// Slashes around a portable target path make no difference to what it is stored
/// as.
pub proof fn outer_slashes_are_dropped(
    path: &str,
    clean: String,
    core: Seq<char>,
    front: nat,
    back: nat,
)
    requires
        call_ensures(sanitize_target_path, (path,), clean),
        portable_path(core),
        path@ == Seq::new(front, |i: int| '/') + core + Seq::new(back, |i: int| '/'),
    ensures
        clean@ == core,
{
    let whole = path@;
    assert forall|i: int| 0 <= i < whole.len() implies portable(#[trigger] whole[i]) || (true
        && whole[i] == '/') by {
        if front <= i < front + core.len() {
            assert(whole[i] == core[i - front]);
        }
    }
    lemma_portable(whole, true);
    trimmed_has_no_outer_separator(whole, false);
    let from = trimming_cuts_the_ends(whole, false);
    let rest = clean@;
    assert(whole[front as int] == core[0]);
    assert(whole[front + core.len() - 1] == core.last());
    assert(from <= front);
    assert(from + rest.len() >= front + core.len());
    if from < front {
        assert(whole[from] == '/');
        assert(rest[0] == whole[from]);
    }
    if from + rest.len() > front + core.len() {
        assert(whole[from + rest.len() - 1] == '/');
        assert(rest.last() == whole[from + rest.len() - 1]);
    }
    assert(rest =~= core);
}

// ---------------------------------------------------------------------------
// Names and paths
// ---------------------------------------------------------------------------
/// A name is its own last component, and nothing stands before it.
pub proof fn lemma_name_alone(name: Seq<char>)
    requires
        forall|i: int| 0 <= i < name.len() ==> name[i] != '/',
    ensures
        file_name(name) == if names_a_file(name) {
            Some(name)
        } else {
            None
        },
        parent(name) matches Some(p) ==> p.len() == 0,
{
    assert(tidy(name) == name);
    lemma_no_slash(name);
    assert(name.skip(0) =~= name);
    assert(name.take(0) =~= Seq::<char>::empty());
}

proof fn lemma_no_slash(name: Seq<char>)
    requires
        forall|i: int| 0 <= i < name.len() ==> name[i] != '/',
    ensures
        last_start(name) == 0,
    decreases name.len(),
{
    if name.len() > 0 {
        assert forall|i: int| 0 <= i < name.drop_last().len() implies name.drop_last()[i]
            != '/' by {
            assert(name.drop_last()[i] == name[i]);
        }
        lemma_no_slash(name.drop_last());
    }
}

/// A file is stored under the upload's id, an underscore and its name; without a
/// usable name it is `unnamed`.
pub proof fn files_are_stored_under_id_and_name(upload_id: &str, filename: &str, name: String)
    requires
        call_ensures(build_stored_name, (upload_id, filename), name),
        forall|i: int| 0 <= i < filename@.len() ==> filename@[i] != '/',
    ensures
        names_a_file(filename@) ==> name@ == upload_id@ + "_"@ + filename@,
        !names_a_file(filename@) ==> name@ == upload_id@ + "_"@ + "unnamed"@,
{
    lemma_name_alone(filename@);
}

/// Clients are given the path `<target>/<id>_<name>`, or `files/<id>_<name>` where
/// they asked for no target.
pub proof fn response_paths_lead_to_the_target(
    upload_id: &str,
    filename: &str,
    target_path: Option<&str>,
    path: String,
)
    requires
        call_ensures(build_response_path, (upload_id, filename, target_path), path),
        names_a_file(filename@),
        option_str_view(target_path) matches Some(target) ==> portable_path(target),
    ensures
        path@ == match option_str_view(target_path) {
            Some(target) => target + "/"@ + upload_id@ + "_"@ + filename@,
            None => "files/"@ + upload_id@ + "_"@ + filename@,
        },
{
    lemma_name_alone(filename@);
    match option_str_view(target_path) {
        Some(target) => {
            lemma_portable_path(target);
            assert(path@ =~= target + "/"@ + upload_id@ + "_"@ + filename@);
        },
        None => {
            assert(path@ =~= "files/"@ + upload_id@ + "_"@ + filename@);
        },
    }
}

/// The key of an object ends with the upload's id, an underscore and the name of
/// the file, unchanged where it is of portable characters. Before that stands the
/// target that was asked for, or `files`.
pub proof fn object_keys_end_with_id_and_name(
    storage: &S3Storage,
    upload_id: &str,
    filename: &str,
    target_path: Option<&str>,
    key: String,
)
    requires
        call_ensures(S3Storage::get_final_key, (storage, upload_id, filename, target_path), key),
        forall|i: int|
            0 <= i < filename@.len() ==> ('a' <= #[trigger] filename@[i] <= 'z' || 'A'
                <= filename@[i] <= 'Z' || '0' <= filename@[i] <= '9' || filename@[i] == '.'
                || filename@[i] == '-' || filename@[i] == '_'),
    ensures
        (upload_id@ + "_"@ + filename@).is_suffix_of(key@),
        option_str_view(target_path) is None ==> key@ == "files/"@ + upload_id@ + "_"@ + filename@,
        option_str_view(target_path) matches Some(target) ==> {
            &&& portable_path(target) ==> key@ == target + "/"@ + upload_id@ + "_"@ + filename@
            &&& target.len() == 0 ==> key@ == upload_id@ + "_"@ + filename@
        },
{
    lemma_portable(filename@, false);
    let name = upload_id@ + "_"@ + filename@;
    match option_str_view(target_path) {
        Some(target) => {
            let clean = sanitized(target);
            if clean.len() > 0 {
                assert(key@ =~= clean + "/"@ + name);
                assert(key@.skip((clean + "/"@).len() as int) =~= name);
            } else {
                assert(key@.skip(0) =~= name);
            }
            assert(name.is_suffix_of(key@)) by {
                assert(key@.subrange(key@.len() - name.len(), key@.len() as int) =~= name);
            }
            if portable_path(target) {
                lemma_portable_path(target);
                assert(key@ =~= target + "/"@ + upload_id@ + "_"@ + filename@);
            }
            if target.len() == 0 {
                lemma_portable_path(target);
            }
        },
        None => {
            assert(key@ =~= "files/"@ + upload_id@ + "_"@ + filename@);
            assert(key@.subrange(key@.len() - name.len(), key@.len() as int) =~= name);
        },
    }
}

/// On the local disk a file is kept below the root, in the directory that was
/// asked for, under its id and name.
pub proof fn local_files_are_kept_in_their_target(
    storage: &LocalStorage,
    upload_id: &str,
    filename: &str,
    target_path: Option<&str>,
    path: String,
)
    requires
        call_ensures(
            LocalStorage::get_final_file_path,
            (storage, upload_id, filename, target_path),
            path,
        ),
        names_a_file(filename@),
        upload_id@.len() > 0,
        upload_id@[0] != '/',
        storage@.final_path.len() > 0,
        storage@.final_path.last() != '/',
        option_str_view(target_path) matches Some(target) ==> portable_path(target)
            && !has_component(target, seq!['.', '.']),
    ensures
        path@ == match option_str_view(target_path) {
            Some(target) => storage@.final_path + "/"@ + target + "/"@ + upload_id@ + "_"@
                + filename@,
            None => storage@.final_path + "/"@ + upload_id@ + "_"@ + filename@,
        },
{
    reveal_strlit("/");
    reveal_strlit("_");
    lemma_name_alone(filename@);
    let root = storage@.final_path;
    let name = upload_id@ + "_"@ + filename@;
    assert(name[0] == upload_id@[0]);
    match option_str_view(target_path) {
        Some(target) => {
            lemma_portable_path(target);
            targets_without_parents_are_kept(target);
            let directory = joined(root, target);
            assert(directory =~= root + "/"@ + target);
            assert(directory.last() == target.last());
            assert(joined(directory, name) =~= root + "/"@ + target + "/"@ + upload_id@ + "_"@
                + filename@);
        },
        None => {
            assert(joined(root, name) =~= root + "/"@ + upload_id@ + "_"@ + filename@);
        },
    }
}

/// On a share a file is kept below the base path, in the directory that was asked
/// for or else in `files`, under its id and name. Until it is complete it is kept
/// under that path with `.partial` behind it.
pub proof fn shared_files_are_kept_in_their_target(
    storage: &SmbStorage,
    upload_id: &str,
    filename: &str,
    target_path: Option<&str>,
    path: String,
    partial: String,
)
    requires
        call_ensures(
            SmbStorage::get_smb_file_path,
            (storage, upload_id, filename, target_path),
            path,
        ),
        call_ensures(
            SmbStorage::get_smb_partial_path,
            (storage, upload_id, filename, target_path),
            partial,
        ),
        names_a_file(filename@),
        storage.smb_config.base_path@.len() > 0 ==> storage.smb_config.base_path@[0] != '/'
            && storage.smb_config.base_path@.last() != '/',
        option_str_view(target_path) matches Some(target) ==> target.len() == 0 || portable_path(
            target,
        ),
    ensures
        ({
            let base = storage.smb_config.base_path@;
            let below = if base.len() == 0 {
                base
            } else {
                base + "/"@
            };
            let directory = match option_str_view(target_path) {
                Some(target) => if target.len() == 0 {
                    target
                } else {
                    target + "/"@
                },
                None => "files/"@,
            };
            &&& path@ == below + directory + upload_id@ + "_"@ + filename@
            &&& partial@ == path@ + ".partial"@
        }),
{
    reveal_strlit("/");
    reveal_strlit("files/");
    reveal_strlit("/files/");
    lemma_name_alone(filename@);
    let base = storage.smb_config.base_path@;
    trimming_keeps_a_bare_text(base, false);
    let name = upload_id@ + "_"@ + filename@;
    match option_str_view(target_path) {
        Some(target) => {
            lemma_portable_path(target);
            if base.len() == 0 {
                assert(base + (target + "/"@) + upload_id@ + "_"@ + filename@ =~= target + "/"@
                    + name);
                assert(base + target + upload_id@ + "_"@ + filename@ =~= target + name);
            } else {
                assert(base + "/"@ + (target + "/"@) + upload_id@ + "_"@ + filename@ =~= base
                    + "/"@ + target + "/"@ + name);
                if target.len() == 0 {
                    assert(base + "/"@ + target + upload_id@ + "_"@ + filename@ =~= base + "/"@
                        + name);
                }
            }
            if target.len() == 0 {
                assert(target + name =~= name);
            }
        },
        None => {
            if base.len() == 0 {
                assert(base + "files/"@ + upload_id@ + "_"@ + filename@ =~= "files/"@ + name);
            } else {
                assert("/files/"@ =~= "/"@ + "files/"@);
                assert(base + "/"@ + "files/"@ + upload_id@ + "_"@ + filename@ =~= base
                    + "/files/"@ + name);
            }
        },
    }
}

/// A target path is stored as what is left when it is filtered and then trimmed.
pub proof fn targets_are_filtered_and_trimmed(
    path: &str,
    clean: String,
    kept: String,
    filtered: &str,
    bare: String,
)
    requires
        call_ensures(sanitize_target_path, (path,), clean),
        call_ensures(keep_safe, (path, true), kept),
        filtered@ == kept@,
        call_ensures(trim_separators, (filtered, false), bare),
    ensures
        clean@ == bare@,
        clean@.len() > 0 ==> clean@[0] != '/' && clean@.last() != '/',
{
    trimmed_has_no_outer_separator(kept@, false);
}

/// Whatever the names are: clients are given the stored name behind the stored
/// target and a slash, the stored name alone where nothing is left of the target,
/// and `files/` and the stored name where there is no target. The key of an object
/// is made in the same way, of the upload's id and the safe characters of the name.
/// On a share the base path stands before it.
pub proof fn paths_are_made_of_target_and_name(
    storage: &SmbStorage,
    objects: &S3Storage,
    upload_id: &str,
    filename: &str,
    target: &str,
    name: String,
    safe: String,
    clean: String,
    told: (String, String),
    keys: (String, String),
    shared: (String, String),
)
    requires
        call_ensures(build_stored_name, (upload_id, filename), name),
        call_ensures(keep_safe, (filename, false), safe),
        call_ensures(sanitize_target_path, (target,), clean),
        call_ensures(build_response_path, (upload_id, filename, Some(target)), told.0),
        call_ensures(build_response_path, (upload_id, filename, None), told.1),
        call_ensures(S3Storage::get_final_key, (objects, upload_id, filename, Some(target)), keys.0),
        call_ensures(S3Storage::get_final_key, (objects, upload_id, filename, None), keys.1),
        call_ensures(
            SmbStorage::get_smb_file_path,
            (storage, upload_id, filename, Some(target)),
            shared.0,
        ),
        call_ensures(SmbStorage::get_smb_file_path, (storage, upload_id, filename, None), shared.1),
        storage.smb_config.base_path@.len() > 0,
        storage.smb_config.base_path@[0] != '/',
        storage.smb_config.base_path@.last() != '/',
    ensures
        ({
            let below = if clean@.len() == 0 {
                clean@
            } else {
                clean@ + "/"@
            };
            let base = storage.smb_config.base_path@;
            &&& told.0@ == below + name@
            &&& told.1@ == "files/"@ + name@
            &&& keys.0@ == below + upload_id@ + "_"@ + safe@
            &&& keys.1@ == "files/"@ + upload_id@ + "_"@ + safe@
            &&& shared.0@ == base + "/"@ + told.0@
            &&& shared.1@ == base + "/"@ + told.1@
        }),
{
    reveal_strlit("/");
    reveal_strlit("files/");
    reveal_strlit("/files/");
    let base = storage.smb_config.base_path@;
    trimming_keeps_a_bare_text(base, false);
    assert("/"@ + "files/"@ =~= "/files/"@);
    assert(clean@.len() == 0 ==> clean@ + name@ =~= name@);
    assert(base + "/"@ + (clean@ + "/"@ + name@) =~= base + "/"@ + clean@ + "/"@ + name@);
    assert(base + "/"@ + ("files/"@ + name@) =~= base + "/files/"@ + name@);
    let key = upload_id@ + "_"@ + safe@;
    assert(clean@.len() == 0 ==> clean@ + upload_id@ + "_"@ + safe@ =~= key);
    assert(clean@ + "/"@ + upload_id@ + "_"@ + safe@ =~= clean@ + "/"@ + key);
    assert("files/"@ + upload_id@ + "_"@ + safe@ =~= "files/"@ + key);
}

/// The stored name of a file with a path before it is that of its last component.
pub proof fn stored_names_leave_out_the_path(
    upload_id: &str,
    filename: &str,
    name: String,
    last: Option<String>,
)
    requires
        call_ensures(build_stored_name, (upload_id, filename), name),
        call_ensures(file_name_of, (filename,), last),
    ensures
        name@ == upload_id@ + "_"@ + match last {
            Some(text) => text@,
            None => "unnamed"@,
        },
{
}

/// On the local disk a file is kept below the root, in the directory that is left of
/// its target when that was stored and its double dots were dropped, or in the root
/// itself where nothing is left.
pub proof fn local_directories_are_what_is_left_of_the_target(
    storage: &LocalStorage,
    upload_id: &str,
    filename: &str,
    target: &str,
    name: String,
    clean: String,
    cleaned: &str,
    kept: String,
    rest: &str,
    bare: String,
    paths: (String, String),
)
    requires
        call_ensures(build_stored_name, (upload_id, filename), name),
        call_ensures(sanitize_target_path, (target,), clean),
        cleaned@ == clean@,
        call_ensures(drop_parents, (cleaned,), kept),
        rest@ == kept@,
        call_ensures(trim_separators, (rest, false), bare),
        call_ensures(
            LocalStorage::get_final_file_path,
            (storage, upload_id, filename, Some(target)),
            paths.0,
        ),
        call_ensures(
            LocalStorage::get_final_file_path,
            (storage, upload_id, filename, None),
            paths.1,
        ),
        storage@.final_path.len() > 0,
        storage@.final_path.last() != '/',
        upload_id@.len() > 0,
        upload_id@[0] != '/',
    ensures
        paths.1@ == storage@.final_path + "/"@ + name@,
        paths.0@ == if bare@.len() == 0 {
            storage@.final_path + "/"@ + name@
        } else {
            storage@.final_path + "/"@ + bare@ + "/"@ + name@
        },
{
    reveal_strlit("/");
    let root = storage@.final_path;
    assert(name@[0] == upload_id@[0]);
    trimmed_has_no_outer_separator(kept@, false);
    assert(joined(root, name@) =~= root + "/"@ + name@);
    if bare@.len() > 0 {
        let directory = joined(root, bare@);
        assert(directory =~= root + "/"@ + bare@);
        assert(directory.last() == bare@.last());
        assert(joined(directory, name@) =~= root + "/"@ + bare@ + "/"@ + name@);
    }
}

} // verus!
