//! Making the directories above a file on the share, one after the other.
use crate::error::{AppError, ErrorView};
use crate::paths::{last_start, lemma_last_start, lemma_last_start_is};
use crate::storage::smb::unc::{is_unc, parse_unc};
use crate::storage::smb::{storage_failure, ResourceKind, SmbConfig};
use crate::text::{characters, contains, lowercase, occurs, piece, to_lowercase};
use vstd::prelude::*;

verus! {

/// `path` with every `\` turned into `/`.
pub open spec fn with_slashes(path: Seq<char>) -> Seq<char> {
    Seq::new(
        path.len(),
        |i: int|
            if path[i] == '\\' {
                '/'
            } else {
                path[i]
            },
    )
}

/// What stands before the last slash of `path`.
pub open spec fn directory_part(path: Seq<char>) -> Seq<char> {
    let p = with_slashes(path);
    if last_start(p) == 0 {
        Seq::empty()
    } else {
        p.take(last_start(p) - 1)
    }
}

/// The names between the slashes of `s`, in order, empty ones left out.
pub open spec fn names(s: Seq<char>) -> Seq<Seq<char>>
    decreases s.len(),
    via names_decreases
{
    if s.len() == 0 {
        Seq::empty()
    } else {
        let at = last_start(s);
        let front = if at == 0 {
            Seq::empty()
        } else {
            s.take(at - 1)
        };
        if at == s.len() {
            names(front)
        } else {
            names(front).push(s.skip(at))
        }
    }
}

#[via_fn]
proof fn names_decreases(s: Seq<char>) {
    lemma_last_start(s);
}

/// Names with slashes between them.
pub open spec fn chain(names: Seq<Seq<char>>) -> Seq<char>
    decreases names.len(),
{
    if names.len() == 0 {
        Seq::empty()
    } else if names.len() == 1 {
        names[0]
    } else {
        chain(names.drop_last()) + "/"@ + names.last()
    }
}

/// The directories with these names, each below the one before.
pub open spec fn nested(names: Seq<Seq<char>>) -> Seq<Seq<char>> {
    Seq::new(names.len(), |i: int| chain(names.take(i + 1)))
}

/// The directories above a file, from the outermost inwards.
pub open spec fn directories_above(path: Seq<char>) -> Seq<Seq<char>> {
    nested(names(directory_part(path)))
}

/// The texts of a vector.
pub open spec fn texts(v: Seq<String>) -> Seq<Seq<char>> {
    Seq::new(v.len(), |i: int| v[i]@)
}

proof fn lemma_nested_push(front: Seq<Seq<char>>, name: Seq<char>)
    ensures
        nested(front.push(name)) == nested(front).push(chain(front.push(name))),
        front.len() > 0 ==> chain(front.push(name)) == chain(front) + "/"@ + name,
        front.len() == 0 ==> chain(front.push(name)) == name,
{
    let all = front.push(name);
    assert(all.drop_last() =~= front);
    assert forall|i: int| 0 <= i < all.len() implies #[trigger] nested(all)[i] == nested(front).push(
        chain(all),
    )[i] by {
        if i < front.len() {
            assert(all.take(i + 1) =~= front.take(i + 1));
        } else {
            assert(all.take(i + 1) =~= all);
        }
    }
    assert(nested(all) =~= nested(front).push(chain(all)));
}

/// The directories with the names in `chars`.
fn nested_directories(chars: &Vec<char>) -> (directories: Vec<String>)
    ensures
        texts(directories@) == nested(names(chars@)),
{
    let mut directories: Vec<String> = Vec::new();
    let mut whole: String = String::new();
    let mut start: usize = 0;
    let ghost mut found: Seq<Seq<char>> = Seq::empty();
    assert(texts(directories@) =~= nested(found));
    assert(chars@.take(0) =~= Seq::empty());
    assert(whole@ =~= chain(found));
    loop
        invariant_except_break
            start <= chars@.len(),
            start > 0 ==> chars@[start - 1] == '/',
            found == names(
                if start == 0 {
                    Seq::empty()
                } else {
                    chars@.take(start - 1)
                },
            ),
            texts(directories@) == nested(found),
            whole@ == chain(found),
        ensures
            texts(directories@) == nested(names(chars@)),
        decreases chars@.len() - start,
    {
        let mut end: usize = start;
        while end < chars.len() && chars[end] != '/'
            invariant
                start <= end <= chars@.len(),
                forall|i: int| start <= i < end ==> chars@[i] != '/',
            decreases chars@.len() - end,
        {
            end += 1;
        }
        let ghost here = chars@.take(end as int);
        proof {
            assert forall|i: int| start <= i < here.len() implies here[i] != '/' by {
                assert(here[i] == chars@[i]);
            }
            if start > 0 {
                assert(here[start - 1] == chars@[start - 1]);
            }
            lemma_last_start_is(here, start as int);
            if start > 0 {
                assert(here.take(start - 1) =~= chars@.take(start - 1));
            }
        }
        if end > start {
            let name: String = piece(chars, start, end);
            let ghost before = found;
            proof {
                assert(here.skip(start as int) =~= name@);
                found = before.push(name@);
                lemma_nested_push(before, name@);
                assert(names(here) == found);
            }
            if directories.len() > 0 {
                whole.append("/");
            }
            whole.append(name.as_str());
            proof {
                assert(before.len() == nested(before).len());
                if before.len() == 0 {
                    assert(Seq::<char>::empty() + name@ =~= name@);
                }
            }
            let ghost listed = directories@;
            directories.push(whole.clone());
            assert(texts(directories@) =~= texts(listed).push(whole@));
        } else {
            assert(names(here) == found) by {
                if here.len() == 0 {
                } else {
                    assert(last_start(here) == here.len());
                }
            }
        }
        if end == chars.len() {
            assert(here =~= chars@);
            break;
        }
        start = end + 1;
    }
    directories
}

/// `path` with every `\` turned into `/`, as characters.
fn slashed(path: &str) -> (chars: Vec<char>)
    ensures
        chars@ == with_slashes(path@),
{
    let mut chars: Vec<char> = characters(path);
    let mut i: usize = 0;
    while i < chars.len()
        invariant
            i <= chars@.len(),
            chars@.len() == path@.len(),
            forall|j: int| 0 <= j < i ==> chars@[j] == with_slashes(path@)[j],
            forall|j: int| i <= j < chars@.len() ==> chars@[j] == path@[j],
        decreases chars@.len() - i,
    {
        if chars[i] == '\\' {
            chars.set(i, '/');
        }
        i += 1;
    }
    assert(chars@ =~= with_slashes(path@));
    chars
}

/// The walk down the directories above a file: each is opened, and made where it
/// cannot be opened.
#[derive(Debug)]
pub struct DirectoryWalk {
    directories: Vec<String>,
    at: usize,
    creating: bool,
}

/// A [`DirectoryWalk`] with its texts as sequences of characters.
#[verifier::ext_equal]
pub struct WalkView {
    pub directories: Seq<Seq<char>>,
    /// The directory whose turn it is.
    pub at: int,
    /// That directory could not be opened and is being made.
    pub creating: bool,
}

impl View for DirectoryWalk {
    type V = WalkView;

    closed spec fn view(&self) -> WalkView {
        WalkView {
            directories: texts(self.directories@),
            at: self.at as int,
            creating: self.creating,
        }
    }
}

/// What is to be done next on a walk.
#[derive(Debug)]
pub enum DirectoryAction {
    /// Open what is there for reading.
    Open(String),
    /// Make a directory where there is none.
    Create(String),
    /// All directories are there.
    Done,
}

/// How many answers a walk still waits for, at most.
pub open spec fn answers_left(walk: WalkView) -> int {
    2 * (walk.directories.len() - walk.at) - if walk.creating {
        1int
    } else {
        0int
    }
}

/// A failure to make a directory that only says that it is there already.
pub open spec fn is_collision(error: Seq<char>) -> bool {
    occurs(lowercase(error), "exists"@) || occurs(lowercase(error), "object name collision"@)
}

impl DirectoryWalk {
    /// The walk has not left its directories.
    pub open spec fn wf(&self) -> bool {
        &&& 0 <= self@.at <= self@.directories.len()
        &&& self@.creating ==> self@.at < self@.directories.len()
    }

    /// Begins the walk to the directories above `path`.
    pub fn begin(config: &SmbConfig, path: &str) -> (outcome: Result<DirectoryWalk, AppError>)
        ensures
            match outcome {
                Ok(walk) => {
                    &&& walk.wf()
                    &&& walk@.directories == directories_above(path@)
                    &&& walk@.at == 0
                    &&& !walk@.creating
                    &&& directory_part(path@).len() == 0 || is_unc(config.unc_path@)
                },
                Err(e) => {
                    &&& directory_part(path@).len() > 0
                    &&& !is_unc(config.unc_path@)
                    &&& e@ == ErrorView::Storage(
                        "Invalid UNC path: "@
                            + "Invalid argument: UNC path must start with two slashes/backslashes"@,
                    )
                },
            },
    {
        let mut chars: Vec<char> = slashed(path);
        let ghost whole = chars@;
        let mut cut: usize = chars.len();
        assert(whole.take(cut as int) =~= whole);
        while cut > 0 && chars[cut - 1] != '/'
            invariant
                cut <= chars@.len(),
                chars@ == whole,
                last_start(whole) == last_start(whole.take(cut as int)),
            decreases cut,
        {
            assert(whole.take(cut as int).drop_last() =~= whole.take(cut - 1));
            cut -= 1;
        }
        assert(cut == last_start(whole)) by {
            if cut > 0 {
                assert(whole.take(cut as int).last() == '/');
            }
        }
        let length: usize = if cut == 0 {
            0
        } else {
            cut - 1
        };
        chars.truncate(length);
        assert(chars@ =~= directory_part(path@));
        if length == 0 {
            let directories: Vec<String> = Vec::new();
            assert(texts(directories@) =~= directories_above(path@));
            return Ok(DirectoryWalk { directories, at: 0, creating: false });
        }
        if let Err(e) = parse_unc(config.unc_path.as_str()) {
            return Err(storage_failure("Invalid UNC path: ", e.as_str()));
        }
        Ok(DirectoryWalk { directories: nested_directories(&chars), at: 0, creating: false })
    }

    /// What is to be done next.
    pub fn next(&self) -> (action: DirectoryAction)
        requires
            self.wf(),
        ensures
            if self@.at == self@.directories.len() {
                action is Done
            } else if self@.creating {
                action matches DirectoryAction::Create(path) && path@
                    == self@.directories[self@.at]
            } else {
                action matches DirectoryAction::Open(path) && path@ == self@.directories[self@.at]
            },
    {
        if self.at == self.directories.len() {
            return DirectoryAction::Done;
        }
        assert(self@.directories[self.at as int] == self.directories@[self.at as int]@);
        if self.creating {
            DirectoryAction::Create(self.directories[self.at].clone())
        } else {
            DirectoryAction::Open(self.directories[self.at].clone())
        }
    }

    /// Takes up what was found behind the path that was opened; `None` where it
    /// could not be opened.
    pub fn opened(&mut self, found: Option<ResourceKind>) -> (outcome: Result<(), AppError>)
        requires
            old(self).wf(),
            old(self)@.at < old(self)@.directories.len(),
            !old(self)@.creating,
        ensures
            final(self).wf(),
            final(self)@.directories == old(self)@.directories,
            match found {
                None => {
                    &&& outcome is Ok
                    &&& final(self)@.at == old(self)@.at
                    &&& final(self)@.creating
                },
                Some(ResourceKind::File) => {
                    &&& outcome matches Err(e) && e@ == ErrorView::Storage(
                        "Path exists but is a file, not directory: "@
                            + old(self)@.directories[old(self)@.at],
                    )
                    &&& final(self)@ == old(self)@
                },
                Some(_) => {
                    &&& outcome is Ok
                    &&& final(self)@.at == old(self)@.at + 1
                    &&& !final(self)@.creating
                },
            },
            outcome is Ok ==> answers_left(final(self)@) < answers_left(old(self)@),
    {
        let ghost before = self@;
        match found {
            None => {
                self.creating = true;
            },
            Some(ResourceKind::File) => {
                assert(before.directories[self.at as int] == self.directories@[self.at as int]@);
                return Err(
                    storage_failure(
                        "Path exists but is a file, not directory: ",
                        self.directories[self.at].as_str(),
                    ),
                );
            },
            Some(_) => {
                assert(self.at < self.directories.len());
                self.at = self.at + 1;
            },
        }
        assert(self@.directories =~= before.directories);
        Ok(())
    }

    /// Takes up what came of making a directory.
    pub fn created(&mut self, result: Result<ResourceKind, String>) -> (outcome: Result<
        (),
        AppError,
    >)
        requires
            old(self).wf(),
            old(self)@.creating,
        ensures
            final(self).wf(),
            final(self)@.directories == old(self)@.directories,
            ({
                let path = old(self)@.directories[old(self)@.at];
                let gone_on = {
                    &&& outcome is Ok
                    &&& final(self)@.at == old(self)@.at + 1
                    &&& !final(self)@.creating
                };
                match result {
                    Ok(ResourceKind::Directory) => gone_on,
                    Ok(_) => {
                        &&& outcome matches Err(e) && e@ == ErrorView::Storage(
                            "Failed to create directory "@ + path + ": unexpected resource type"@,
                        )
                        &&& final(self)@ == old(self)@
                    },
                    Err(error) => if is_collision(error@) {
                        gone_on
                    } else {
                        &&& outcome matches Err(e) && e@ == ErrorView::Storage(
                            "Failed to create SMB directory "@ + path + ": "@ + error@,
                        )
                        &&& final(self)@ == old(self)@
                    },
                }
            }),
            outcome is Ok ==> answers_left(final(self)@) < answers_left(old(self)@),
    {
        let ghost before = self@;
        assert(before.directories[self.at as int] == self.directories@[self.at as int]@);
        match result {
            Ok(ResourceKind::Directory) => {},
            Ok(_) => {
                let mut prefix: String = "Failed to create directory ".to_owned();
                prefix.append(self.directories[self.at].as_str());
                return Err(storage_failure(prefix.as_str(), ": unexpected resource type"));
            },
            Err(error) => {
                let low: String = to_lowercase(error.as_str());
                if !(contains(low.as_str(), "exists") || contains(
                    low.as_str(),
                    "object name collision",
                )) {
                    let mut prefix: String = "Failed to create SMB directory ".to_owned();
                    prefix.append(self.directories[self.at].as_str());
                    prefix.append(": ");
                    return Err(storage_failure(prefix.as_str(), error.as_str()));
                }
            },
        }
        assert(self.at < self.directories.len());
        self.at = self.at + 1;
        self.creating = false;
        assert(self@.directories =~= before.directories);
        Ok(())
    }
}

// ---------------------------------------------------------------------------
// Laws
// ---------------------------------------------------------------------------
/// Each directory lies directly below the one before, so that making them in
/// order never needs one that is not there yet.
pub proof fn directories_are_nested(path: Seq<char>, i: int)
    requires
        0 <= i < directories_above(path).len() - 1,
    ensures
        directories_above(path)[i + 1] == directories_above(path)[i] + "/"@ + names(
            directory_part(path),
        )[i + 1],
{
    let all = names(directory_part(path));
    assert(all.take(i + 2).drop_last() =~= all.take(i + 1));
    assert(all.take(i + 2).last() == all[i + 1]);
}

} // verus!
