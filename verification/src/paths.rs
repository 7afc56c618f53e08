//! File paths as text, with `/` between the components.
//!
//! Repeated separators, a trailing separator and `.` components count for
//! nothing, save a leading `/` or `.`.
use crate::text::{characters, is_separator, piece, trimmed, trimming_cuts_the_ends};
use vstd::prelude::*;

verus! {

/// `path` without trailing separators and trailing `.` components. A path that
/// is only `/` or `.` stays.
pub open spec fn tidy(path: Seq<char>) -> Seq<char>
    decreases path.len(),
{
    if path.len() >= 2 && path.last() == '/' {
        tidy(path.drop_last())
    } else if path.len() >= 2 && path.last() == '.' && path[path.len() - 2] == '/' {
        tidy(path.drop_last())
    } else {
        path
    }
}

/// Where the text behind the last `/` begins.
pub open spec fn last_start(path: Seq<char>) -> int
    decreases path.len(),
{
    if path.len() == 0 {
        0
    } else if path.last() == '/' {
        path.len() as int
    } else {
        last_start(path.drop_last())
    }
}

/// The last component of a path, where it names a file: not of the empty path,
/// of `/`, nor of one that ends in `.` or `..`.
pub open spec fn file_name(path: Seq<char>) -> Option<Seq<char>> {
    let t = tidy(path);
    let name = t.skip(last_start(t));
    if name.len() == 0 || name == seq!['.'] || name == seq!['.', '.'] {
        None
    } else {
        Some(name)
    }
}

/// The path without its last component, where it has one.
pub open spec fn parent(path: Seq<char>) -> Option<Seq<char>> {
    let t = tidy(path);
    if last_start(t) == t.len() {
        None
    } else {
        Some(tidy(t.take(last_start(t))))
    }
}

/// `path` below `base`. An absolute `path` stands for itself.
pub open spec fn joined(base: Seq<char>, path: Seq<char>) -> Seq<char> {
    if path.len() > 0 && path[0] == '/' {
        path
    } else if base.len() == 0 || base.last() == '/' {
        base + path
    } else {
        base.push('/') + path
    }
}

/// `path` with `name` in place of its file name.
pub open spec fn renamed(path: Seq<char>, name: Seq<char>) -> Seq<char> {
    if file_name(path) is Some {
        joined(parent(path)->0, name)
    } else {
        joined(path, name)
    }
}

/// A tidy path is a front part of the path.
pub proof fn tidy_is_a_front_part(path: Seq<char>)
    ensures
        tidy(path).len() <= path.len(),
        tidy(path) == path.take(tidy(path).len() as int),
        tidy(tidy(path)) == tidy(path),
    decreases path.len(),
{
    if path.len() >= 2 && (path.last() == '/' || (path.last() == '.' && path[path.len() - 2]
        == '/')) {
        tidy_is_a_front_part(path.drop_last());
        assert(path.drop_last().take(tidy(path).len() as int) =~= path.take(
            tidy(path).len() as int,
        ));
    } else {
        assert(path.take(path.len() as int) =~= path);
    }
}

pub proof fn lemma_last_start(path: Seq<char>)
    ensures
        0 <= last_start(path) <= path.len(),
        last_start(path) > 0 ==> path[last_start(path) - 1] == '/',
        forall|i: int| last_start(path) <= i < path.len() ==> path[i] != '/',
    decreases path.len(),
{
    if path.len() > 0 && path.last() != '/' {
        let front = path.drop_last();
        lemma_last_start(front);
        assert forall|i: int| last_start(path) <= i < path.len() implies path[i] != '/' by {
            if i < front.len() {
                assert(front[i] != '/');
            }
        }
    }
}

/// A text without `/` starts its own last component.
pub proof fn lemma_last_start_is(path: Seq<char>, at: int)
    requires
        0 <= at <= path.len(),
        at > 0 ==> path[at - 1] == '/',
        forall|i: int| at <= i < path.len() ==> path[i] != '/',
    ensures
        last_start(path) == at,
{
    lemma_last_start(path);
    let k = last_start(path);
    if k < at {
        assert(path[at - 1] != '/');
    } else if at < k {
        assert(path[k - 1] != '/');
    }
}

/// `name` can stand as the last component of a path: it is not empty, holds no
/// `/`, and is neither `.` nor `..`.
pub open spec fn is_plain_name(name: Seq<char>) -> bool {
    &&& name.len() > 0
    &&& forall|i: int| 0 <= i < name.len() ==> name[i] != '/'
    &&& name != seq!['.']
    &&& name != seq!['.', '.']
}

/// A plain name put below a base is the file name of the result, and what it
/// was put below, tidied, is the parent.
pub proof fn joining_sets_the_file_name(base: Seq<char>, name: Seq<char>)
    requires
        is_plain_name(name),
    ensures
        file_name(joined(base, name)) == Some(name),
        parent(joined(base, name)) == Some(tidy(joined(base, Seq::empty()))),
{
    let whole = joined(base, name);
    let front = joined(base, Seq::empty());
    assert(name[0] != '/');
    assert(whole =~= front + name);
    let n = whole.len();
    assert(whole.last() == name.last());
    assert(name[name.len() - 1] != '/');
    assert(tidy(whole) == whole) by {
        if n >= 2 && whole.last() == '.' && whole[n - 2] == '/' {
            if name.len() >= 2 {
                assert(whole[n - 2] == name[name.len() - 2]);
            } else {
                assert(name =~= seq!['.']);
            }
        }
    }
    assert forall|i: int| front.len() <= i < n implies whole[i] != '/' by {
        assert(whole[i] == name[i - front.len()]);
    }
    lemma_last_start_is(whole, front.len() as int);
    assert(whole.skip(front.len() as int) =~= name);
    assert(whole.take(front.len() as int) =~= front);
}

/// The name that a path ends in is plain.
pub proof fn file_names_are_plain(path: Seq<char>)
    requires
        file_name(path) is Some,
    ensures
        is_plain_name(file_name(path)->0),
{
    let t = tidy(path);
    lemma_last_start(t);
    let name = t.skip(last_start(t));
    assert forall|i: int| 0 <= i < name.len() implies name[i] != '/' by {
        assert(name[i] == t[last_start(t) + i]);
    }
}

// ---------------------------------------------------------------------------
// Components
// ---------------------------------------------------------------------------
/// `name` is the component of `path` that begins at `at`: it stands there,
/// between slashes or the ends of the path.
pub open spec fn is_component(path: Seq<char>, name: Seq<char>, at: int) -> bool {
    &&& 0 <= at && at + name.len() <= path.len()
    &&& path.subrange(at, at + name.len()) == name
    &&& at == 0 || path[at - 1] == '/'
    &&& at + name.len() == path.len() || path[at + name.len()] == '/'
}

/// `name` is a component of `path`.
pub open spec fn has_component(path: Seq<char>, name: Seq<char>) -> bool {
    exists|at: int| is_component(path, name, at)
}

/// The component that leads to the directory above.
pub open spec fn parent_name() -> Seq<char> {
    seq!['.', '.']
}

/// `path` without its `..` components.
pub open spec fn without_parents(path: Seq<char>) -> Seq<char>
    decreases path.len(),
    via without_parents_decreases
{
    let at = last_start(path);
    let name = path.skip(at);
    if at == 0 {
        if name == parent_name() {
            Seq::empty()
        } else {
            name
        }
    } else {
        let front = without_parents(path.take(at - 1));
        if name == parent_name() {
            front
        } else {
            front.push('/') + name
        }
    }
}

#[via_fn]
proof fn without_parents_decreases(path: Seq<char>) {
    lemma_last_start(path);
}

/// A text without slashes is its only component.
proof fn lemma_single_component(path: Seq<char>, name: Seq<char>)
    requires
        forall|i: int| 0 <= i < path.len() ==> path[i] != '/',
        has_component(path, name),
    ensures
        path == name,
{
    let at = choose|at: int| is_component(path, name, at);
    if at > 0 {
        assert(path[at - 1] != '/');
    }
    if at + name.len() < path.len() {
        assert(path[at + name.len()] != '/');
    }
    assert(path.subrange(0, path.len() as int) =~= path);
}

/// The components of two paths with a slash between them are those of either.
pub proof fn components_come_from_either_side(front: Seq<char>, back: Seq<char>, name: Seq<char>)
    requires
        forall|i: int| 0 <= i < name.len() ==> name[i] != '/',
        has_component(front.push('/') + back, name),
    ensures
        has_component(front, name) || has_component(back, name),
{
    let whole = front.push('/') + back;
    let k = front.len() as int;
    let at = choose|at: int| is_component(whole, name, at);
    let n = name.len();
    assert(whole[k] == '/');
    if at <= k < at + n {
        assert(whole.subrange(at, at + n)[k - at] == name[k - at]);
    }
    if at + n <= k {
        assert(front.subrange(at, at + n) =~= whole.subrange(at, at + n));
        assert(at == 0 || front[at - 1] == whole[at - 1]);
        assert(at + n == k || front[at + n] == whole[at + n]);
        assert(is_component(front, name, at));
    } else {
        let b = at - k - 1;
        assert(back.subrange(b, b + n) =~= whole.subrange(at, at + n));
        assert(b == 0 || back[b - 1] == whole[at - 1]);
        assert(b + n == back.len() || back[b + n] == whole[at + n]);
        assert(is_component(back, name, b));
    }
}

/// No component that was dropped is left.
pub proof fn no_parents_are_left(path: Seq<char>)
    ensures
        !has_component(without_parents(path), parent_name()),
    decreases path.len(),
{
    lemma_last_start(path);
    let at = last_start(path);
    let name = path.skip(at);
    assert forall|i: int| 0 <= i < name.len() implies name[i] != '/' by {
        assert(name[i] == path[at + i]);
    }
    if has_component(without_parents(path), parent_name()) {
        if at == 0 {
            lemma_single_component(without_parents(path), parent_name());
        } else {
            let front = without_parents(path.take(at - 1));
            no_parents_are_left(path.take(at - 1));
            if name != parent_name() {
                components_come_from_either_side(front, name, parent_name());
                lemma_single_component(name, parent_name());
            }
        }
    }
}

/// A path without `..` components stays as it is.
pub proof fn paths_without_parents_stay(path: Seq<char>)
    requires
        !has_component(path, parent_name()),
    ensures
        without_parents(path) == path,
    decreases path.len(),
{
    lemma_last_start(path);
    let at = last_start(path);
    let name = path.skip(at);
    if name == parent_name() {
        assert(path.subrange(at, at + 2) =~= name);
        assert(is_component(path, parent_name(), at));
    }
    if at > 0 {
        let front = path.take(at - 1);
        if has_component(front, parent_name()) {
            let k = choose|k: int| is_component(front, parent_name(), k);
            assert(path.subrange(k, k + 2) =~= front.subrange(k, k + 2));
            assert(k == 0 || front[k - 1] == path[k - 1]);
            assert(k + 2 == front.len() || front[k + 2] == path[k + 2]);
            assert(is_component(path, parent_name(), k));
        }
        paths_without_parents_stay(front);
        assert(front.push('/') + name =~= path);
    } else {
        assert(name =~= path);
    }
}

/// Trimming the slashes off a path adds no component.
pub proof fn trimming_adds_no_component(path: Seq<char>, name: Seq<char>)
    requires
        has_component(trimmed(path, false), name),
    ensures
        has_component(path, name),
{
    let from = trimming_cuts_the_ends(path, false);
    let bare = trimmed(path, false);
    let at = choose|at: int| is_component(bare, name, at);
    assert(path.subrange(from + at, from + at + name.len()) =~= bare.subrange(at, at + name.len()));
    if at > 0 {
        assert(bare[at - 1] == path[from + at - 1]);
    } else if from > 0 {
        assert(is_separator(path[from - 1], false));
    }
    if at + name.len() < bare.len() {
        assert(bare[at + name.len()] == path[from + at + name.len()]);
    } else if from + bare.len() < path.len() {
        assert(is_separator(path[from + bare.len()], false));
    }
    assert(is_component(path, name, from + at));
}

/// Drops the `..` components of a path.
pub fn drop_parents(path: &str) -> (kept: String)
    ensures
        kept@ == without_parents(path@),
{
    let chars: Vec<char> = characters(path);
    let mut kept: String = String::new();
    let mut start: usize = 0;
    loop
        invariant
            chars@ == path@,
            start <= chars@.len(),
            start == 0 ==> kept@.len() == 0,
            start > 0 ==> chars@[start - 1] == '/' && kept@ == without_parents(
                chars@.take(start - 1),
            ),
        decreases chars@.len() - start,
    {
        let mut end: usize = start;
        while end < chars.len() && chars[end] != '/'
            invariant
                start <= end <= chars@.len(),
                forall|i: int| start <= i < end ==> chars@[i] != '/',
            decreases chars@.len() - end,
        {
            end += 1;
        }
        let ghost front = chars@.take(end as int);
        let ghost name = chars@.subrange(start as int, end as int);
        proof {
            lemma_last_start_is(front, start as int);
            assert(front.skip(start as int) =~= name);
            if start > 0 {
                assert(front.take(start - 1) =~= chars@.take(start - 1));
            }
        }
        let leads_up: bool = end - start == 2 && chars[start] == '.' && chars[start + 1] == '.';
        assert(leads_up == (name == parent_name())) by {
            if leads_up {
                assert(name =~= parent_name());
            } else if name == parent_name() {
                assert(name[0] == '.' && name[1] == '.');
            }
        }
        if !leads_up {
            let ghost before = kept@;
            if start > 0 {
                kept.push('/');
            }
            let text: String = piece(&chars, start, end);
            kept.append(text.as_str());
            assert(kept@ =~= if start > 0 {
                before.push('/') + name
            } else {
                name
            });
        }
        assert(kept@ =~= without_parents(front));
        if end == chars.len() {
            assert(front =~= path@);
            return kept;
        }
        start = end + 1;
    }
}

// ---------------------------------------------------------------------------
// Operations
// ---------------------------------------------------------------------------
/// The length of the tidy part of the first `len` characters.
fn tidy_length(chars: &Vec<char>, len: usize) -> (tidied: usize)
    requires
        len <= chars@.len(),
    ensures
        tidied <= len,
        tidy(chars@.take(len as int)) == chars@.take(tidied as int),
{
    let mut end: usize = len;
    while end >= 2 && (chars[end - 1] == '/' || (chars[end - 1] == '.' && chars[end - 2] == '/'))
        invariant
            end <= len <= chars@.len(),
            tidy(chars@.take(len as int)) == tidy(chars@.take(end as int)),
        decreases end,
    {
        assert(chars@.take(end as int).drop_last() =~= chars@.take(end - 1));
        end -= 1;
    }
    end
}

/// Where the last component of the first `len` characters begins.
fn last_start_of(chars: &Vec<char>, len: usize) -> (at: usize)
    requires
        len <= chars@.len(),
    ensures
        at <= len,
        at == last_start(chars@.take(len as int)),
{
    let mut at: usize = len;
    while at > 0 && chars[at - 1] != '/'
        invariant
            at <= len <= chars@.len(),
            last_start(chars@.take(len as int)) == last_start(chars@.take(at as int)),
        decreases at,
    {
        assert(chars@.take(at as int).drop_last() =~= chars@.take(at - 1));
        at -= 1;
    }
    at
}

/// The file name at the end of `path`.
pub fn file_name_of(path: &str) -> (name: Option<String>)
    ensures
        crate::text::option_view(name) == file_name(path@),
{
    let chars: Vec<char> = characters(path);
    assert(chars@.take(chars@.len() as int) =~= chars@);
    let end: usize = tidy_length(&chars, chars.len());
    let at: usize = last_start_of(&chars, end);
    let ghost t = tidy(path@);
    let ghost name = t.skip(last_start(t));
    assert(name =~= chars@.subrange(at as int, end as int));
    if at == end {
        return None;
    }
    if end - at == 1 && chars[at] == '.' {
        assert(name =~= seq!['.']);
        return None;
    }
    if end - at == 2 && chars[at] == '.' && chars[at + 1] == '.' {
        assert(name =~= seq!['.', '.']);
        return None;
    }
    assert(name != seq!['.']) by {
        if name == seq!['.'] {
            assert(name[0] == '.');
        }
    }
    assert(name != seq!['.', '.']) by {
        if name == seq!['.', '.'] {
            assert(name[0] == '.' && name[1] == '.');
        }
    }
    Some(piece(&chars, at, end))
}

/// The directory that holds what `path` names.
pub fn parent_of(path: &str) -> (directory: Option<String>)
    ensures
        crate::text::option_view(directory) == parent(path@),
{
    let chars: Vec<char> = characters(path);
    assert(chars@.take(chars@.len() as int) =~= chars@);
    let end: usize = tidy_length(&chars, chars.len());
    let at: usize = last_start_of(&chars, end);
    if at == end {
        return None;
    }
    let ghost t = tidy(path@);
    assert(t.take(at as int) =~= chars@.take(at as int));
    let front: usize = tidy_length(&chars, at);
    assert(chars@.subrange(0, front as int) =~= chars@.take(front as int));
    Some(piece(&chars, 0, front))
}

/// Puts `path` below `base`.
pub fn join(base: &str, path: &str) -> (whole: String)
    ensures
        whole@ == joined(base@, path@),
{
    let front: Vec<char> = characters(base);
    let back: Vec<char> = characters(path);
    if back.len() > 0 && back[0] == '/' {
        return path.to_owned();
    }
    let mut whole: String = base.to_owned();
    if front.len() > 0 && front[front.len() - 1] != '/' {
        whole.push('/');
    }
    whole.append(path);
    whole
}

/// Puts `name` in place of the file name of `path`.
pub fn with_file_name(path: &str, name: &str) -> (changed: String)
    ensures
        changed@ == renamed(path@, name@),
{
    match file_name_of(path) {
        Some(_) => match parent_of(path) {
            Some(directory) => join(directory.as_str(), name),
            None => {
                proof {
                    lemma_last_start(tidy(path@));
                }
                join(path, name)
            },
        },
        None => join(path, name),
    }
}

} // verus!
