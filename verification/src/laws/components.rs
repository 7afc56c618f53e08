//! Paths and their components, and digests as text.
use crate::digest::{digest_of, hex_digit, hex_text, sha256_digest};
use crate::laws::naming::{lemma_name_alone, names_a_file};
use crate::paths::{
    drop_parents, file_name, file_name_of, has_component, join, joined, joining_sets_the_file_name,
    lemma_last_start_is, no_parents_are_left, parent, parent_of, paths_without_parents_stay, tidy,
    with_file_name,
};
use crate::text::option_view;
use vstd::prelude::*;

verus! {

/// A directory: some characters that end neither with a slash nor with a component
/// of a single dot.
pub open spec fn names_a_directory(s: Seq<char>) -> bool {
    &&& s.len() > 0
    &&& s.last() != '/'
    &&& s.len() >= 2 ==> !(s.last() == '.' && s[s.len() - 2] == '/')
}

proof fn lemma_in_directory(directory: Seq<char>, name: Seq<char>)
    requires
        names_a_directory(directory),
        names_a_file(name),
    ensures
        file_name(directory + "/"@ + name) == Some(name),
        parent(directory + "/"@ + name) == Some(directory),
        joined(directory, name) == directory + "/"@ + name,
{
    reveal_strlit("/");
    assert(joined(directory, name) =~= directory + "/"@ + name);
    joining_sets_the_file_name(directory, name);
    let open = joined(directory, Seq::empty());
    assert(open =~= directory.push('/'));
    assert(open.drop_last() =~= directory);
    assert(tidy(directory) == directory);
    assert(tidy(open) == tidy(open.drop_last()));
}

/// A path is taken apart at its last slash into directory and name, and joining
/// the two puts it together again.
pub proof fn paths_are_taken_apart_and_joined(
    path: &str,
    name: Option<String>,
    directory: Option<String>,
    front: &str,
    back: &str,
    whole: String,
)
    requires
        path@ == front@ + "/"@ + back@,
        names_a_directory(front@),
        names_a_file(back@),
        call_ensures(file_name_of, (path,), name),
        call_ensures(parent_of, (path,), directory),
        call_ensures(join, (front, back), whole),
    ensures
        option_view(name) == Some(back@),
        option_view(directory) == Some(front@),
        whole@ == path@,
{
    lemma_in_directory(front@, back@);
}

/// A name alone is its own last component, in no directory; `.`, `..` and nothing
/// are no names.
pub proof fn names_alone_are_in_no_directory(
    path: &str,
    name: Option<String>,
    directory: Option<String>,
)
    requires
        call_ensures(file_name_of, (path,), name),
        call_ensures(parent_of, (path,), directory),
        forall|i: int| 0 <= i < path@.len() ==> path@[i] != '/',
    ensures
        option_view(name) == if names_a_file(path@) {
            Some(path@)
        } else {
            None
        },
        option_view(directory) matches Some(d) ==> d.len() == 0,
        path@.len() > 0 ==> directory is Some,
{
    lemma_name_alone(path@);
    assert(tidy(path@) == path@);
    if path@.len() > 0 {
        lemma_last_start_is(path@, 0);
    }
}

/// Slashes at the end of a path, and components of a single dot there, make no
/// difference to what it names.
pub proof fn trailing_slashes_make_no_difference(
    path: &str,
    longer: &str,
    names: (Option<String>, Option<String>),
    directories: (Option<String>, Option<String>),
)
    requires
        path@.len() > 0,
        longer@ == path@ + "/"@ || longer@ == path@ + "/."@,
        call_ensures(file_name_of, (path,), names.0),
        call_ensures(file_name_of, (longer,), names.1),
        call_ensures(parent_of, (path,), directories.0),
        call_ensures(parent_of, (longer,), directories.1),
    ensures
        option_view(names.0) == option_view(names.1),
        option_view(directories.0) == option_view(directories.1),
{
    reveal_strlit("/");
    reveal_strlit("/.");
    let slashed = path@ + "/"@;
    assert(slashed.drop_last() =~= path@);
    assert(tidy(slashed) == tidy(path@));
    if longer@ == path@ + "/."@ {
        assert(longer@.drop_last() =~= slashed);
        assert(tidy(longer@) == tidy(slashed));
    }
}

/// Joining puts one slash between a directory and a relative path; an absolute path
/// stands for itself, and nothing is put before a path below no directory.
pub proof fn joining_puts_one_slash_between(base: &str, path: &str, whole: String)
    requires
        call_ensures(join, (base, path), whole),
    ensures
        path@.len() > 0 && path@[0] == '/' ==> whole@ == path@,
        !(path@.len() > 0 && path@[0] == '/') ==> {
            &&& base@.len() == 0 ==> whole@ == path@
            &&& base@.len() > 0 && base@.last() == '/' ==> whole@ == base@ + path@
            &&& base@.len() > 0 && base@.last() != '/' ==> whole@ == base@ + "/"@ + path@
        },
{
    reveal_strlit("/");
    if base@.len() == 0 {
        assert(base@ + path@ =~= path@);
    }
    assert(base@.push('/') + path@ =~= base@ + "/"@ + path@);
}

/// Giving a file another name leaves it in its directory.
pub proof fn renamed_files_stay_in_their_directory(
    path: &str,
    name: &str,
    changed: String,
    directory: Seq<char>,
    before: Seq<char>,
)
    requires
        call_ensures(with_file_name, (path, name), changed),
        path@ == directory + "/"@ + before,
        names_a_directory(directory),
        names_a_file(before),
        names_a_file(name@),
    ensures
        changed@ == directory + "/"@ + name@,
{
    lemma_in_directory(directory, before);
    lemma_in_directory(directory, name@);
}

/// Of a path without components of two dots nothing is dropped, and of any path no
/// such component is left.
pub proof fn only_double_dots_are_dropped(path: &str, kept: String)
    requires
        call_ensures(drop_parents, (path,), kept),
    ensures
        !has_component(path@, seq!['.', '.']) ==> kept@ == path@,
        !has_component(kept@, seq!['.', '.']),
{
    no_parents_are_left(path@);
    if !has_component(path@, seq!['.', '.']) {
        paths_without_parents_stay(path@);
    }
}

/// A component of two dots is dropped with the slash before it; any other component
/// is kept as it is.
pub proof fn components_are_dropped_one_by_one(
    path: &str,
    kept: String,
    front: &str,
    kept_front: String,
    name: Seq<char>,
)
    requires
        call_ensures(drop_parents, (path,), kept),
        call_ensures(drop_parents, (front,), kept_front),
        path@ == front@ + "/"@ + name,
        forall|i: int| 0 <= i < name.len() ==> name[i] != '/',
    ensures
        name == seq!['.', '.'] ==> kept@ == kept_front@,
        name != seq!['.', '.'] ==> kept@ == kept_front@ + "/"@ + name,
{
    reveal_strlit("/");
    let at = front@.len() as int + 1;
    let whole = path@;
    assert(whole[at - 1] == '/');
    assert forall|i: int| at <= i < whole.len() implies whole[i] != '/' by {
        assert(whole[i] == name[i - at]);
    }
    lemma_last_start_is(whole, at);
    assert(whole.skip(at) =~= name);
    assert(whole.take(at - 1) =~= front@);
    assert(kept_front@.push('/') + name =~= kept_front@ + "/"@ + name);
}

/// The value of a hexadecimal digit.
pub open spec fn hex_value(c: char) -> int {
    if '0' <= c <= '9' {
        c as int - '0' as int
    } else {
        c as int - 'a' as int + 10
    }
}

/// A digest is written byte by byte, each as two hexadecimal digits with the upper
/// half first.
pub proof fn digests_are_written_byte_by_byte(data: &[u8], text: String, i: int)
    requires
        call_ensures(digest_of, (data,), text),
        0 <= i < 32,
    ensures
        text@.len() == 64,
        sha256_digest(data@).len() == 32,
        16 * hex_value(text@[2 * i]) + hex_value(text@[2 * i + 1]) == sha256_digest(data@)[i],
        '0' <= text@[2 * i] <= '9' || 'a' <= text@[2 * i] <= 'f',
        '0' <= text@[2 * i + 1] <= '9' || 'a' <= text@[2 * i + 1] <= 'f',
{
    let bytes = sha256_digest(data@);
    assert(hex_text(bytes).len() == 2 * bytes.len());
    assert((2 * i) / 2 == i && (2 * i) % 2 == 0);
    assert((2 * i + 1) / 2 == i && (2 * i + 1) % 2 == 1);
    assert(hex_text(bytes)[2 * i] == hex_digit(bytes[i] as int / 16));
    assert(hex_text(bytes)[2 * i + 1] == hex_digit(bytes[i] as int % 16));
}

} // verus!
