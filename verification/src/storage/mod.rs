//! Where parts and finished files are kept.
pub mod disk;
pub mod local;
pub mod parts;
pub mod s3;
pub mod smb;
pub mod steps;

use crate::paths::{file_name, file_name_of};
use crate::text::{
    is_safe, keep_safe, only_safe, only_safe_keeps_a_safe_text, only_safe_leaves_safe_characters,
    option_str_view, trim_separators, trimmed, trimmed_has_no_outer_separator,
    trimming_cuts_the_ends, trimming_keeps_a_bare_text,
};
use vstd::prelude::*;

verus! {

/// A target path as it is stored: of its characters only the safe ones, and
/// without slashes at its ends.
pub open spec fn sanitized(path: Seq<char>) -> Seq<char> {
    trimmed(only_safe(path, true), false)
}

/// The name a file is stored under: the last component of the name that was
/// given, behind the upload's id.
pub open spec fn stored_name(upload_id: Seq<char>, filename: Seq<char>) -> Seq<char> {
    upload_id + "_"@ + match file_name(filename) {
        Some(name) => name,
        None => "unnamed"@,
    }
}

/// The path of a finished file as clients see it.
pub open spec fn response_path(
    upload_id: Seq<char>,
    filename: Seq<char>,
    target_path: Option<Seq<char>>,
) -> Seq<char> {
    let name = stored_name(upload_id, filename);
    match target_path {
        Some(path) => if sanitized(path).len() == 0 {
            name
        } else {
            sanitized(path) + "/"@ + name
        },
        None => "files/"@ + name,
    }
}

/// Keeps the safe characters of a target path and strips the slashes at its
/// ends.
pub fn sanitize_target_path(path: &str) -> (clean: String)
    ensures
        clean@ == sanitized(path@),
{
    let safe: String = keep_safe(path, true);
    trim_separators(safe.as_str(), false)
}

/// The name a file is stored under.
pub fn build_stored_name(upload_id: &str, filename: &str) -> (name: String)
    ensures
        name@ == stored_name(upload_id@, filename@),
{
    let mut name: String = upload_id.to_owned();
    name.append("_");
    match file_name_of(filename) {
        Some(last) => {
            name.append(last.as_str());
        },
        None => {
            name.append("unnamed");
        },
    }
    name
}

/// The path of a finished file as clients see it, such as
/// `videos/2024/<id>_movie.mp4` or `files/<id>_movie.mp4`.
pub fn build_response_path(upload_id: &str, filename: &str, target_path: Option<&str>) -> (path:
    String)
    ensures
        path@ == response_path(upload_id@, filename@, option_str_view(target_path)),
{
    let name: String = build_stored_name(upload_id, filename);
    match target_path {
        Some(target) => {
            let clean: String = sanitize_target_path(target);
            if clean.as_str().is_empty() {
                name
            } else {
                let mut path: String = clean;
                path.append("/");
                path.append(name.as_str());
                path
            }
        },
        None => {
            let mut path: String = "files/".to_owned();
            path.append(name.as_str());
            path
        },
    }
}

/// A sanitized path holds nothing but letters, digits, `/`, `.`, `-` and `_`.
pub proof fn sanitized_paths_are_safe(path: Seq<char>)
    ensures
        forall|i: int| 0 <= i < sanitized(path).len() ==> is_safe(#[trigger] sanitized(path)[i], true),
{
    let safe = only_safe(path, true);
    only_safe_leaves_safe_characters(path, true);
    let from = trimming_cuts_the_ends(safe, false);
    assert forall|i: int| 0 <= i < sanitized(path).len() implies is_safe(
        #[trigger] sanitized(path)[i],
        true,
    ) by {
        assert(sanitized(path)[i] == safe[from + i]);
    }
}

/// A sanitized path neither begins nor ends with a slash, whatever stood around
/// its slashes, and sanitizing it again changes nothing.
pub proof fn sanitized_paths_are_bare(path: Seq<char>)
    ensures
        sanitized(path).len() > 0 ==> sanitized(path)[0] != '/' && sanitized(path).last() != '/',
        sanitized(sanitized(path)) == sanitized(path),
{
    trimmed_has_no_outer_separator(only_safe(path, true), false);
    sanitized_paths_are_safe(path);
    safe_paths_are_kept(sanitized(path));
}

/// The path that a client is given is relative.
pub proof fn response_paths_are_relative(
    upload_id: Seq<char>,
    filename: Seq<char>,
    target_path: Option<Seq<char>>,
)
    requires
        upload_id.len() > 0,
        upload_id[0] != '/',
    ensures
        response_path(upload_id, filename, target_path).len() > 0,
        response_path(upload_id, filename, target_path)[0] != '/',
{
    reveal_strlit("files/");
    let name = stored_name(upload_id, filename);
    assert(name[0] == upload_id[0]);
    match target_path {
        Some(path) => {
            sanitized_paths_are_bare(path);
            if sanitized(path).len() > 0 {
                assert(response_path(upload_id, filename, target_path)[0] == sanitized(path)[0]);
            }
        },
        None => {
            assert(response_path(upload_id, filename, target_path)[0] == "files/"@[0]);
        },
    }
}

/// A path of safe characters that neither begins nor ends with a slash is stored
/// as it was given.
pub proof fn safe_paths_are_kept(path: Seq<char>)
    requires
        forall|i: int| 0 <= i < path.len() ==> is_safe(#[trigger] path[i], true),
        path.len() > 0 ==> path[0] != '/' && path.last() != '/',
    ensures
        sanitized(path) == path,
{
    trimming_keeps_a_bare_text(path, false);
    only_safe_keeps_a_safe_text(path, true);
}

/// Uploads with different ids of the same length never share a stored name.
pub proof fn stored_names_tell_uploads_apart(
    id_a: Seq<char>,
    name_a: Seq<char>,
    id_b: Seq<char>,
    name_b: Seq<char>,
)
    requires
        id_a.len() == id_b.len(),
        stored_name(id_a, name_a) == stored_name(id_b, name_b),
    ensures
        id_a == id_b,
{
    let a = stored_name(id_a, name_a);
    let b = stored_name(id_b, name_b);
    assert(a.take(id_a.len() as int) =~= id_a);
    assert(b.take(id_b.len() as int) =~= id_b);
}

} // verus!
