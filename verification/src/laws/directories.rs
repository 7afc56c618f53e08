//! How the directories above a file on a share come to be.
use crate::error::{AppError, ErrorView};
use crate::paths::{last_start, lemma_last_start, lemma_last_start_is};
use crate::storage::smb::{ResourceKind, SmbConfig};
use crate::storage::smb::directories::{
    chain, directory_part, names, with_slashes, DirectoryAction, DirectoryWalk,
};
use crate::text::{lowercase, occurs};
use vstd::prelude::*;

verus! {

/// A path of names with one slash between any two of them and none around them.
pub open spec fn is_clean(s: Seq<char>) -> bool {
    &&& s.len() > 0
    &&& s[0] != '/'
    &&& s.last() != '/'
    &&& forall|i: int| 0 <= i < s.len() ==> #[trigger] s[i] != '\\'
    &&& forall|i: int| 0 < i < s.len() && #[trigger] s[i] == '/' ==> s[i - 1] != '/'
}

proof fn lemma_names(s: Seq<char>)
    requires
        is_clean(s),
    ensures
        names(s).len() > 0,
        chain(names(s)) == s,
        forall|i: int|
            0 <= i < names(s).len() ==> (#[trigger] names(s)[i]).len() > 0 && forall|j: int|
                0 <= j < names(s)[i].len() ==> names(s)[i][j] != '/',
    decreases s.len(),
{
    reveal_strlit("/");
    lemma_last_start(s);
    let at = last_start(s);
    let name = s.skip(at);
    assert forall|j: int| 0 <= j < name.len() implies name[j] != '/' by {
        assert(name[j] == s[at + j]);
    }
    if at == 0 {
        assert(names(Seq::<char>::empty()) =~= Seq::<Seq<char>>::empty());
        assert(names(s) =~= seq![name]);
        assert(name =~= s);
    } else {
        let front = s.take(at - 1);
        assert(s[at - 1] == '/');
        assert(at - 1 > 0);
        assert(front.last() == s[at - 2]);
        assert(is_clean(front)) by {
            assert forall|i: int| 0 < i < front.len() && #[trigger] front[i] == '/' implies front[i
                - 1] != '/' by {
                assert(s[i] == '/');
            }
            assert forall|i: int| 0 <= i < front.len() implies #[trigger] front[i] != '\\' by {
                assert(front[i] == s[i]);
            }
        }
        lemma_names(front);
        assert(names(s) == names(front).push(name));
        assert(names(s).drop_last() =~= names(front));
        assert(chain(names(s)) =~= front + "/"@ + name);
        assert(s =~= front + "/"@ + name);
        assert forall|i: int| 0 <= i < names(s).len() implies (#[trigger] names(s)[i]).len() > 0
            && forall|j: int| 0 <= j < names(s)[i].len() ==> names(s)[i][j] != '/' by {
            if i < names(front).len() {
                assert(names(s)[i] == names(front)[i]);
            }
        }
    }
}

/// For a file in a directory the walk goes down to that directory: the first
/// directory is a single name, each further one lies directly below the one
/// before, and the last is the directory of the file.
pub proof fn walks_go_down_to_the_directory(
    config: &SmbConfig,
    path: &str,
    outcome: Result<DirectoryWalk, AppError>,
    directory: Seq<char>,
    name: Seq<char>,
)
    requires
        call_ensures(DirectoryWalk::begin, (config, path), outcome),
        path@ == directory + "/"@ + name,
        is_clean(directory),
        forall|i: int| 0 <= i < name.len() ==> name[i] != '/' && name[i] != '\\',
        outcome is Ok,
    ensures
        ({
            let steps = outcome->Ok_0@.directories;
            &&& steps.len() > 0
            &&& steps.last() == directory
            &&& forall|j: int| 0 <= j < steps[0].len() ==> steps[0][j] != '/'
            &&& forall|i: int|
                0 < i < steps.len() ==> {
                    let below = steps[i - 1] + "/"@;
                    &&& below.is_prefix_of(#[trigger] steps[i])
                    &&& steps[i].len() > below.len()
                    &&& forall|j: int| below.len() <= j < steps[i].len() ==> steps[i][j] != '/'
                }
            &&& outcome->Ok_0@.at == 0
            &&& !outcome->Ok_0@.creating
        }),
{
    reveal_strlit("/");
    let whole = path@;
    let p = with_slashes(whole);
    assert(p =~= whole) by {
        assert forall|i: int| 0 <= i < whole.len() implies p[i] == whole[i] by {
            if i < directory.len() {
                assert(whole[i] == directory[i]);
            } else if i > directory.len() {
                assert(whole[i] == name[i - directory.len() - 1]);
            }
        }
    }
    let cut = directory.len() as int + 1;
    assert(whole[cut - 1] == '/');
    assert forall|i: int| cut <= i < whole.len() implies whole[i] != '/' by {
        assert(whole[i] == name[i - cut]);
    }
    lemma_last_start_is(whole, cut);
    assert(whole.take(cut - 1) =~= directory);
    lemma_names(directory);
    let found = names(directory);
    let steps = outcome->Ok_0@.directories;
    assert(found.take(found.len() as int) =~= found);
    assert(steps.last() == chain(found));
    assert(found.take(1) =~= seq![found[0]]);
    assert(steps[0] == found[0]);
    assert forall|i: int| 0 < i < steps.len() implies ({
        let below = steps[i - 1] + "/"@;
        &&& below.is_prefix_of(#[trigger] steps[i])
        &&& steps[i].len() > below.len()
        &&& forall|j: int| below.len() <= j < steps[i].len() ==> steps[i][j] != '/'
    }) by {
        let below = steps[i - 1] + "/"@;
        assert(found.take(i + 1).drop_last() =~= found.take(i));
        assert(found.take(i + 1).last() == found[i]);
        assert(steps[i] == below + found[i]);
        assert(steps[i].subrange(0, below.len() as int) =~= below);
        assert forall|j: int| below.len() <= j < steps[i].len() implies steps[i][j] != '/' by {
            assert(steps[i][j] == found[i][j - below.len()]);
        }
    }
}

/// For a file at the top there is no directory to make.
pub proof fn files_at_the_top_need_no_directory(
    config: &SmbConfig,
    path: &str,
    outcome: Result<DirectoryWalk, AppError>,
)
    requires
        call_ensures(DirectoryWalk::begin, (config, path), outcome),
        forall|i: int| 0 <= i < path@.len() ==> path@[i] != '/' && path@[i] != '\\',
    ensures
        outcome matches Ok(walk) && walk@.directories.len() == 0,
{
    let p = with_slashes(path@);
    assert forall|i: int| 0 <= i < p.len() implies p[i] != '/' by {
        assert(p[i] == path@[i]);
    }
    lemma_last_start_is(p, 0);
}

/// Each directory is opened in its turn, and made where it could not be opened;
/// the walk is done when all are there.
pub proof fn directories_are_opened_or_made(walk: &DirectoryWalk, action: DirectoryAction)
    requires
        walk.wf(),
        call_ensures(DirectoryWalk::next, (walk,), action),
    ensures
        action is Done == (walk@.at == walk@.directories.len()),
        action matches DirectoryAction::Open(path) ==> !walk@.creating && path@
            == walk@.directories[walk@.at],
        action matches DirectoryAction::Create(path) ==> walk@.creating && path@
            == walk@.directories[walk@.at],
{
}

/// A directory that is there is passed. One that is not is made next. A file in its
/// place ends the walk.
pub proof fn open_directories_are_passed(
    walk: &mut DirectoryWalk,
    found: Option<ResourceKind>,
    outcome: Result<(), AppError>,
)
    requires
        call_ensures(DirectoryWalk::opened, (walk, found), outcome),
    ensures
        final(walk)@.directories == old(walk)@.directories,
        outcome is Ok == (found != Some(ResourceKind::File)),
        found is Some && found != Some(ResourceKind::File) ==> final(walk)@.at == old(walk)@.at + 1
            && !final(walk)@.creating,
        found is None ==> final(walk)@.at == old(walk)@.at && final(walk)@.creating,
        outcome matches Err(e) ==> final(walk)@ == old(walk)@ && e@ == ErrorView::Storage(
            "Path exists but is a file, not directory: "@
                + old(walk)@.directories[old(walk)@.at],
        ),
{
}

/// A directory that was made is passed, and so is one of which the failure only
/// says that it exists already; any other failure ends the walk.
pub proof fn made_directories_are_passed(
    walk: &mut DirectoryWalk,
    result: Result<ResourceKind, String>,
    outcome: Result<(), AppError>,
)
    requires
        call_ensures(DirectoryWalk::created, (walk, result), outcome),
    ensures
        final(walk)@.directories == old(walk)@.directories,
        outcome is Ok == match result {
            Ok(kind) => kind == ResourceKind::Directory,
            Err(error) => occurs(lowercase(error@), "exists"@) || occurs(
                lowercase(error@),
                "object name collision"@,
            ),
        },
        outcome is Ok ==> final(walk)@.at == old(walk)@.at + 1 && !final(walk)@.creating,
        outcome matches Err(e) ==> final(walk)@ == old(walk)@ && e@ is Storage,
        result is Ok && outcome is Err ==> outcome->Err_0@ == ErrorView::Storage(
            "Failed to create directory "@ + old(walk)@.directories[old(walk)@.at]
                + ": unexpected resource type"@,
        ),
        result is Err && outcome is Err ==> outcome->Err_0@ == ErrorView::Storage(
            "Failed to create SMB directory "@ + old(walk)@.directories[old(walk)@.at] + ": "@
                + result->Err_0@,
        ),
{
}

/// A backslash counts as a slash: two paths that differ in nothing else lead to the
/// same directories.
pub proof fn backslashes_count_as_slashes(
    config: &SmbConfig,
    path: &str,
    other: &str,
    outcomes: (Result<DirectoryWalk, AppError>, Result<DirectoryWalk, AppError>),
)
    requires
        call_ensures(DirectoryWalk::begin, (config, path), outcomes.0),
        call_ensures(DirectoryWalk::begin, (config, other), outcomes.1),
        path@.len() == other@.len(),
        forall|i: int|
            0 <= i < path@.len() ==> #[trigger] path@[i] == other@[i] || (path@[i] == '\\'
                && other@[i] == '/'),
    ensures
        outcomes.0 is Ok == outcomes.1 is Ok,
        outcomes.0 is Ok ==> outcomes.0->Ok_0@ == outcomes.1->Ok_0@,
{
    assert(with_slashes(path@) =~= with_slashes(other@));
}

proof fn lemma_names_are_plain(s: Seq<char>)
    ensures
        forall|i: int|
            0 <= i < names(s).len() ==> (#[trigger] names(s)[i]).len() > 0 && forall|j: int|
                0 <= j < names(s)[i].len() ==> names(s)[i][j] != '/',
    decreases s.len(),
{
    if s.len() > 0 {
        lemma_last_start(s);
        let at = last_start(s);
        let front = if at == 0 {
            Seq::empty()
        } else {
            s.take(at - 1)
        };
        lemma_names_are_plain(front);
        let name = s.skip(at);
        assert forall|j: int| 0 <= j < name.len() implies name[j] != '/' by {
            assert(name[j] == s[at + j]);
        }
        assert forall|i: int| 0 <= i < names(s).len() implies (#[trigger] names(s)[i]).len() > 0
            && forall|j: int| 0 <= j < names(s)[i].len() ==> names(s)[i][j] != '/' by {
            if i < names(front).len() {
                assert(names(s)[i] == names(front)[i]);
            }
        }
    }
}

/// Whatever the path is, no directory is named twice over or without a name: each
/// step of the walk adds exactly one name to the one before.
pub proof fn each_step_adds_one_name(
    config: &SmbConfig,
    path: &str,
    outcome: Result<DirectoryWalk, AppError>,
    i: int,
)
    requires
        call_ensures(DirectoryWalk::begin, (config, path), outcome),
        outcome is Ok,
        0 <= i < outcome->Ok_0@.directories.len(),
    ensures
        ({
            let steps = outcome->Ok_0@.directories;
            let below = if i == 0 {
                Seq::empty()
            } else {
                steps[i - 1] + "/"@
            };
            &&& below.is_prefix_of(steps[i])
            &&& steps[i].len() > below.len()
            &&& forall|j: int| below.len() <= j < steps[i].len() ==> steps[i][j] != '/'
        }),
{
    let found = names(directory_part(path@));
    lemma_names_are_plain(directory_part(path@));
    let steps = outcome->Ok_0@.directories;
    if i == 0 {
        assert(found.take(1) =~= seq![found[0]]);
        assert(steps[0] == found[0]);
        assert(steps[0].subrange(0, 0) =~= Seq::<char>::empty());
    } else {
        let below = steps[i - 1] + "/"@;
        assert(found.take(i + 1).drop_last() =~= found.take(i));
        assert(found.take(i + 1).last() == found[i]);
        assert(steps[i] == below + found[i]);
        assert(steps[i].subrange(0, below.len() as int) =~= below);
        assert forall|j: int| below.len() <= j < steps[i].len() implies steps[i][j] != '/' by {
            assert(steps[i][j] == found[i][j - below.len()]);
        }
    }
}

proof fn lemma_double_slash(front: Seq<char>, back: Seq<char>)
    ensures
        names(front + seq!['/', '/'] + back) == names(front + seq!['/'] + back),
    decreases back.len(),
{
    let long = front + seq!['/', '/'] + back;
    let short = front + seq!['/'] + back;
    lemma_last_start(long);
    lemma_last_start(short);
    let k = last_start(back);
    lemma_last_start(back);
    if k > 0 {
        let cut_long = front.len() as int + 2 + k;
        let cut_short = front.len() as int + 1 + k;
        assert(long[cut_long - 1] == back[k - 1]);
        assert(short[cut_short - 1] == back[k - 1]);
        assert forall|i: int| cut_long <= i < long.len() implies long[i] != '/' by {
            assert(long[i] == back[i - front.len() - 2]);
        }
        assert forall|i: int| cut_short <= i < short.len() implies short[i] != '/' by {
            assert(short[i] == back[i - front.len() - 1]);
        }
        lemma_last_start_is(long, cut_long);
        lemma_last_start_is(short, cut_short);
        let rest = back.take(k - 1);
        assert(long.take(cut_long - 1) =~= front + seq!['/', '/'] + rest);
        assert(short.take(cut_short - 1) =~= front + seq!['/'] + rest);
        assert(long.skip(cut_long) =~= back.skip(k));
        assert(short.skip(cut_short) =~= back.skip(k));
        lemma_double_slash(front, rest);
    } else {
        let cut_long = front.len() as int + 2;
        let cut_short = front.len() as int + 1;
        assert(long[cut_long - 1] == '/' && long[cut_long - 2] == '/');
        assert(short[cut_short - 1] == '/');
        assert forall|i: int| cut_long <= i < long.len() implies long[i] != '/' by {
            assert(long[i] == back[i - front.len() - 2]);
        }
        assert forall|i: int| cut_short <= i < short.len() implies short[i] != '/' by {
            assert(short[i] == back[i - front.len() - 1]);
        }
        lemma_last_start_is(long, cut_long);
        lemma_last_start_is(short, cut_short);
        assert(long.skip(cut_long) =~= back);
        assert(short.skip(cut_short) =~= back);
        assert(short.take(cut_short - 1) =~= front);
        let mid = long.take(cut_long - 1);
        assert(mid =~= front.push('/'));
        lemma_last_start_is(mid, mid.len() as int);
        assert(mid.take(mid.len() - 1) =~= front);
        assert(names(mid) == names(front));
    }
}

/// A slash more between two directories makes no difference.
pub proof fn double_slashes_make_no_difference(
    config: &SmbConfig,
    path: &str,
    longer: &str,
    outcomes: (Result<DirectoryWalk, AppError>, Result<DirectoryWalk, AppError>),
    front: Seq<char>,
    back: Seq<char>,
    name: Seq<char>,
)
    requires
        call_ensures(DirectoryWalk::begin, (config, path), outcomes.0),
        call_ensures(DirectoryWalk::begin, (config, longer), outcomes.1),
        path@ == front + seq!['/'] + back + seq!['/'] + name,
        longer@ == front + seq!['/', '/'] + back + seq!['/'] + name,
        forall|i: int| 0 <= i < path@.len() ==> #[trigger] path@[i] != '\\',
        forall|i: int| 0 <= i < name.len() ==> #[trigger] name[i] != '/',
        outcomes.0 is Ok,
        outcomes.1 is Ok,
    ensures
        outcomes.0->Ok_0@.directories == outcomes.1->Ok_0@.directories,
{
    let p = path@;
    let q = longer@;
    let mid_p = front + seq!['/'] + back;
    let mid_q = front + seq!['/', '/'] + back;
    assert(p =~= mid_p + seq!['/'] + name);
    assert(q =~= mid_q + seq!['/'] + name);
    assert forall|i: int| 0 <= i < q.len() implies #[trigger] q[i] != '\\' by {
        if i < front.len() {
            assert(q[i] == p[i]);
        } else if i >= front.len() + 2 {
            assert(q[i] == p[i - 1]);
        }
    }
    assert(with_slashes(p) =~= p);
    assert(with_slashes(q) =~= q);
    let a = mid_p.len() as int + 1;
    let b = mid_q.len() as int + 1;
    assert(p[a - 1] == '/');
    assert(q[b - 1] == '/');
    assert forall|i: int| a <= i < p.len() implies p[i] != '/' by {
        assert(p[i] == name[i - a]);
    }
    assert forall|i: int| b <= i < q.len() implies q[i] != '/' by {
        assert(q[i] == name[i - b]);
    }
    lemma_last_start_is(p, a);
    lemma_last_start_is(q, b);
    assert(p.take(a - 1) =~= mid_p);
    assert(q.take(b - 1) =~= mid_q);
    lemma_double_slash(front, back);
}

/// A walk begins wherever the share's address begins with two slashes of one kind;
/// without such an address it is refused.
pub proof fn walks_need_the_address_of_the_share(
    config: &SmbConfig,
    path: &str,
    outcome: Result<DirectoryWalk, AppError>,
)
    requires
        call_ensures(DirectoryWalk::begin, (config, path), outcome),
    ensures
        config.unc_path@.len() >= 2 && ((config.unc_path@[0] == '/' && config.unc_path@[1] == '/')
            || (config.unc_path@[0] == '\\' && config.unc_path@[1] == '\\')) ==> outcome is Ok,
        outcome matches Err(e) ==> e@ == ErrorView::Storage(
            "Invalid UNC path: "@
                + "Invalid argument: UNC path must start with two slashes/backslashes"@,
        ),
        outcome is Ok ==> outcome->Ok_0@.directories.len() == 0 || (config.unc_path@.len() >= 2
            && config.unc_path@[0] == config.unc_path@[1]),
{
}

proof fn lemma_leading_slash(back: Seq<char>)
    ensures
        names(seq!['/'] + back) == names(back),
    decreases back.len(),
{
    let whole = seq!['/'] + back;
    lemma_last_start(back);
    let k = last_start(back);
    if k > 0 {
        assert(whole[k] == back[k - 1]);
        assert forall|i: int| k + 1 <= i < whole.len() implies whole[i] != '/' by {
            assert(whole[i] == back[i - 1]);
        }
        lemma_last_start_is(whole, k + 1);
        let rest = back.take(k - 1);
        assert(whole.take(k) =~= seq!['/'] + rest);
        assert(whole.skip(k + 1) =~= back.skip(k));
        lemma_leading_slash(rest);
    } else {
        assert(whole[0] == '/');
        assert forall|i: int| 1 <= i < whole.len() implies whole[i] != '/' by {
            assert(whole[i] == back[i - 1]);
        }
        lemma_last_start_is(whole, 1);
        assert(whole.skip(1) =~= back);
        assert(back.skip(0) =~= back);
        assert(whole.take(0) =~= Seq::<char>::empty());
        assert(names(Seq::<char>::empty()) =~= Seq::<Seq<char>>::empty());
    }
}

/// A slash in front of a path makes no difference to the directories above the file.
pub proof fn leading_slashes_make_no_difference(
    config: &SmbConfig,
    path: &str,
    longer: &str,
    outcomes: (Result<DirectoryWalk, AppError>, Result<DirectoryWalk, AppError>),
    directory: Seq<char>,
    name: Seq<char>,
)
    requires
        call_ensures(DirectoryWalk::begin, (config, path), outcomes.0),
        call_ensures(DirectoryWalk::begin, (config, longer), outcomes.1),
        path@ == directory + seq!['/'] + name,
        longer@ == seq!['/'] + directory + seq!['/'] + name,
        forall|i: int| 0 <= i < path@.len() ==> #[trigger] path@[i] != '\\',
        forall|i: int| 0 <= i < name.len() ==> #[trigger] name[i] != '/',
        outcomes.0 is Ok,
        outcomes.1 is Ok,
    ensures
        outcomes.0->Ok_0@.directories == outcomes.1->Ok_0@.directories,
{
    let p = path@;
    let q = longer@;
    let open = seq!['/'] + directory;
    assert(q =~= open + seq!['/'] + name);
    assert forall|i: int| 0 <= i < q.len() implies #[trigger] q[i] != '\\' by {
        if i > 0 {
            assert(q[i] == p[i - 1]);
        }
    }
    assert(with_slashes(p) =~= p);
    assert(with_slashes(q) =~= q);
    let a = directory.len() as int + 1;
    assert(p[a - 1] == '/');
    assert(q[a] == '/');
    assert forall|i: int| a <= i < p.len() implies p[i] != '/' by {
        assert(p[i] == name[i - a]);
    }
    assert forall|i: int| a + 1 <= i < q.len() implies q[i] != '/' by {
        assert(q[i] == name[i - a - 1]);
    }
    lemma_last_start_is(p, a);
    lemma_last_start_is(q, a + 1);
    assert(p.take(a - 1) =~= directory);
    assert(q.take(a) =~= open);
    lemma_leading_slash(directory);
}

} // verus!
