//! UNC paths, as in `\\server\share\path`.
use crate::text::option_view;
use std::str::FromStr;
use vstd::prelude::*;

verus! {

/// What a UNC path names.
#[derive(Debug)]
pub struct UncAddress {
    pub server: String,
    pub share: Option<String>,
    pub path: Option<String>,
}

/// An [`UncAddress`] with its texts as sequences of characters.
#[verifier::ext_equal]
pub struct UncView {
    pub server: Seq<char>,
    pub share: Option<Seq<char>>,
    pub path: Option<Seq<char>>,
}

impl View for UncAddress {
    type V = UncView;

    open spec fn view(&self) -> UncView {
        UncView {
            server: self.server@,
            share: option_view(self.share),
            path: option_view(self.path),
        }
    }
}

/// A slash of either kind.
pub open spec fn is_slash(c: char) -> bool {
    c == '\\' || c == '/'
}

/// Where the first slash stands, or the length where there is none.
pub open spec fn first_slash(s: Seq<char>) -> int
    decreases s.len(),
{
    if s.len() == 0 || is_slash(s[0]) {
        0
    } else {
        1 + first_slash(s.skip(1))
    }
}

/// `s` with every `/` turned into `\`.
pub open spec fn with_backslashes(s: Seq<char>) -> Seq<char> {
    Seq::new(
        s.len(),
        |i: int|
            if s[i] == '/' {
                '\\'
            } else {
                s[i]
            },
    )
}

/// A UNC path begins with two slashes of one kind.
pub open spec fn is_unc(s: Seq<char>) -> bool {
    s.len() >= 2 && s[0] == s[1] && is_slash(s[0])
}

/// What a UNC path names: behind the two slashes stands the server, behind the
/// next slash the share, and behind the one after that the path.
pub open spec fn unc_address(s: Seq<char>) -> UncView {
    let all = s.skip(2);
    let a = first_slash(all);
    if a >= all.len() {
        UncView { server: all, share: None, path: None }
    } else {
        let rest = all.skip(a + 1);
        let b = first_slash(rest);
        if b >= rest.len() {
            UncView { server: all.take(a), share: Some(rest), path: None }
        } else {
            UncView {
                server: all.take(a),
                share: Some(rest.take(b)),
                path: Some(with_backslashes(rest.skip(b + 1))),
            }
        }
    }
}

/// Calls `smb::UncPath::from_str` and takes the result apart. It accepts exactly
/// the texts that begin with two slashes of one kind, and splits what follows at
/// the first two slashes. There is one error.
#[verifier::external_body]
pub(crate) fn parse_unc(text: &str) -> (outcome: Result<UncAddress, String>)
    ensures
        outcome is Ok == is_unc(text@),
        outcome matches Ok(address) ==> address@ == unc_address(text@),
        outcome matches Err(e) ==> e@
            == "Invalid argument: UNC path must start with two slashes/backslashes"@,
{
    match smb::UncPath::from_str(text) {
        Ok(unc) => Ok(
            UncAddress {
                server: unc.server().to_string(),
                share: unc.share().map(|s| s.to_string()),
                path: unc.path().map(|s| s.to_string()),
            },
        ),
        Err(e) => Err(e.to_string()),
    }
}

} // verus!
