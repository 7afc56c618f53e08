//! Text as sequences of characters: comparing, searching, trimming, filtering.
//!
//! Contracts speak of a string by its view, a sequence of characters. A
//! function that has to look at single characters first copies the string into
//! a vector of them.
use vstd::prelude::*;

verus! {

/// `String::push` appends one character to the end of the string.
pub assume_specification[ String::push ](s: &mut String, c: char)
    ensures
        final(s)@ == old(s)@.push(c),
;

/// `str` equality: two string slices are equal when they hold the same
/// characters.
pub assume_specification[ <str as PartialEq>::eq ](a: &str, b: &str) -> (equal: bool)
    ensures
        equal == (a@ == b@),
;

// ---------------------------------------------------------------------------
// Characters
// ---------------------------------------------------------------------------
/// The characters of `s`, in order.
pub fn characters(s: &str) -> (chars: Vec<char>)
    ensures
        chars@ == s@,
{
    let mut chars: Vec<char> = Vec::new();
    for c in it: s.chars()
        invariant
            it.seq() == s@,
            chars@ == s@.take(it.index()),
    {
        assert(s@.take(it.index()).push(c) =~= s@.take(it.index() + 1));
        chars.push(c);
    }
    assert(s@.take(s@.len() as int) =~= s@);
    chars
}

/// The string made of the characters of `chars` from `from` up to `to`.
pub fn piece(chars: &Vec<char>, from: usize, to: usize) -> (s: String)
    requires
        from <= to <= chars@.len(),
    ensures
        s@ == chars@.subrange(from as int, to as int),
{
    let mut s: String = String::new();
    let mut i: usize = from;
    while i < to
        invariant
            from <= i <= to <= chars@.len(),
            s@ == chars@.subrange(from as int, i as int),
        decreases to - i,
    {
        assert(chars@.subrange(from as int, i as int).push(chars@[i as int])
            =~= chars@.subrange(from as int, i + 1));
        s.push(chars[i]);
        i += 1;
    }
    s
}

/// Whether two strings hold the same characters.
pub fn same(a: &str, b: &str) -> (equal: bool)
    ensures
        equal == (a@ == b@),
{
    *a == *b
}

/// A copy of an optional string.
pub fn copy_option(text: &Option<String>) -> (copy: Option<String>)
    ensures
        option_view(copy) == option_view(*text),
{
    match text {
        Some(s) => Some(s.clone()),
        None => None,
    }
}

/// The characters of an optional string.
pub open spec fn option_view(text: Option<String>) -> Option<Seq<char>> {
    match text {
        Some(s) => Some(s@),
        None => None,
    }
}

/// The characters of an optional string slice.
pub open spec fn option_str_view(text: Option<&str>) -> Option<Seq<char>> {
    match text {
        Some(s) => Some(s@),
        None => None,
    }
}

// ---------------------------------------------------------------------------
// Prefixes, suffixes, occurrences
// ---------------------------------------------------------------------------
/// `needle` stands in `hay` at position `at`.
pub open spec fn occurs_at(hay: Seq<char>, needle: Seq<char>, at: int) -> bool {
    0 <= at && at + needle.len() <= hay.len() && hay.subrange(at, at + needle.len()) == needle
}

/// `needle` stands somewhere in `hay`.
pub open spec fn occurs(hay: Seq<char>, needle: Seq<char>) -> bool {
    exists|at: int| occurs_at(hay, needle, at)
}

/// Whether `needle` stands in `hay` at position `at`.
fn stands_at(hay: &Vec<char>, needle: &Vec<char>, at: usize) -> (found: bool)
    requires
        at <= hay@.len(),
    ensures
        found == occurs_at(hay@, needle@, at as int),
{
    if needle.len() > hay.len() - at {
        return false;
    }
    let mut i: usize = 0;
    while i < needle.len()
        invariant
            i <= needle@.len(),
            at + needle@.len() <= hay.len(),
            forall|j: int| 0 <= j < i ==> hay@[at + j] == needle@[j],
        decreases needle@.len() - i,
    {
        if hay[at + i] != needle[i] {
            assert(hay@.subrange(at as int, at + needle@.len())[i as int] != needle@[i as int]);
            return false;
        }
        i += 1;
    }
    assert(hay@.subrange(at as int, at + needle@.len()) =~= needle@);
    true
}

/// Whether `needle` stands somewhere in `hay`.
pub fn contains(hay: &str, needle: &str) -> (found: bool)
    ensures
        found == occurs(hay@, needle@),
{
    let h: Vec<char> = characters(hay);
    let n: Vec<char> = characters(needle);
    let mut at: usize = 0;
    loop
        invariant
            h@ == hay@,
            n@ == needle@,
            at <= h@.len(),
            forall|k: int| 0 <= k < at ==> !occurs_at(hay@, needle@, k),
        decreases h@.len() - at,
    {
        if stands_at(&h, &n, at) {
            return true;
        }
        if at == h.len() {
            return false;
        }
        at += 1;
    }
}

/// Whether `s` begins with `prefix`.
pub fn starts_with(s: &str, prefix: &str) -> (yes: bool)
    ensures
        yes == prefix@.is_prefix_of(s@),
{
    let h: Vec<char> = characters(s);
    let n: Vec<char> = characters(prefix);
    let yes: bool = stands_at(&h, &n, 0);
    yes
}

/// Whether `s` ends with `suffix`.
pub fn ends_with(s: &str, suffix: &str) -> (yes: bool)
    ensures
        yes == suffix@.is_suffix_of(s@),
{
    let h: Vec<char> = characters(s);
    let n: Vec<char> = characters(suffix);
    if n.len() > h.len() {
        return false;
    }
    stands_at(&h, &n, h.len() - n.len())
}

/// What is left of `s` behind `prefix`, where `s` begins with it.
pub open spec fn without_prefix(s: Seq<char>, prefix: Seq<char>) -> Option<Seq<char>> {
    if prefix.is_prefix_of(s) {
        Some(s.skip(prefix.len() as int))
    } else {
        None
    }
}

/// Takes `prefix` off the front of `s`.
pub fn strip_prefix(s: &str, prefix: &str) -> (rest: Option<String>)
    ensures
        option_view(rest) == without_prefix(s@, prefix@),
{
    let h: Vec<char> = characters(s);
    let n: Vec<char> = characters(prefix);
    if stands_at(&h, &n, 0) {
        assert(s@.skip(prefix@.len() as int) =~= s@.subrange(
            prefix@.len() as int,
            s@.len() as int,
        ));
        Some(piece(&h, n.len(), h.len()))
    } else {
        None
    }
}

// ---------------------------------------------------------------------------
// Trimming and filtering
// ---------------------------------------------------------------------------
/// The separators that trimming takes off: `/`, and `\\` too where `both` says
/// so.
pub open spec fn is_separator(c: char, both: bool) -> bool {
    c == '/' || (both && c == '\\')
}

/// `s` without the separators at its front.
pub open spec fn trim_front(s: Seq<char>, both: bool) -> Seq<char>
    decreases s.len(),
{
    if s.len() > 0 && is_separator(s[0], both) {
        trim_front(s.skip(1), both)
    } else {
        s
    }
}

/// `s` without the separators at its back.
pub open spec fn trim_back(s: Seq<char>, both: bool) -> Seq<char>
    decreases s.len(),
{
    if s.len() > 0 && is_separator(s.last(), both) {
        trim_back(s.drop_last(), both)
    } else {
        s
    }
}

/// `s` without the separators at either end.
pub open spec fn trimmed(s: Seq<char>, both: bool) -> Seq<char> {
    trim_back(trim_front(s, both), both)
}

/// A trimmed text begins and ends with something other than a separator.
pub proof fn trimmed_has_no_outer_separator(s: Seq<char>, both: bool)
    ensures
        trimmed(s, both).len() > 0 ==> !is_separator(trimmed(s, both)[0], both) && !is_separator(
            trimmed(s, both).last(),
            both,
        ),
{
    lemma_trim_front(s, both);
    lemma_trim_back(trim_front(s, both), both);
}

proof fn lemma_trim_front(s: Seq<char>, both: bool)
    ensures
        trim_front(s, both).len() > 0 ==> !is_separator(trim_front(s, both)[0], both),
    decreases s.len(),
{
    if s.len() > 0 && is_separator(s[0], both) {
        lemma_trim_front(s.skip(1), both);
    }
}

proof fn lemma_trim_back(s: Seq<char>, both: bool)
    ensures
        trim_back(s, both).is_prefix_of(s),
        trim_back(s, both).len() > 0 ==> !is_separator(trim_back(s, both).last(), both),
    decreases s.len(),
{
    if s.len() > 0 && is_separator(s.last(), both) {
        lemma_trim_back(s.drop_last(), both);
        assert(trim_back(s, both).is_prefix_of(s));
    } else {
        assert(s.subrange(0, s.len() as int) =~= s);
    }
}

/// Trimming cuts off the ends: what is left is a stretch of the text, and all
/// around it are separators. The stretch begins at the result.
pub proof fn trimming_cuts_the_ends(s: Seq<char>, both: bool) -> (from: int)
    ensures
        0 <= from,
        from + trimmed(s, both).len() <= s.len(),
        trimmed(s, both) == s.subrange(from, from + trimmed(s, both).len()),
        forall|i: int| 0 <= i < from ==> is_separator(#[trigger] s[i], both),
        forall|i: int|
            from + trimmed(s, both).len() <= i < s.len() ==> is_separator(#[trigger] s[i], both),
{
    let front = trim_front(s, both);
    let from = lemma_front_cut(s, both);
    lemma_back_cut(front, both);
    let rest = trimmed(s, both);
    assert(rest =~= s.subrange(from, from + rest.len()));
    assert forall|i: int| from + rest.len() <= i < s.len() implies is_separator(
        #[trigger] s[i],
        both,
    ) by {
        assert(front[i - from] == s[i]);
    }
    from
}

proof fn lemma_front_cut(s: Seq<char>, both: bool) -> (from: int)
    ensures
        0 <= from <= s.len(),
        trim_front(s, both) == s.skip(from),
        forall|i: int| 0 <= i < from ==> is_separator(#[trigger] s[i], both),
    decreases s.len(),
{
    if s.len() > 0 && is_separator(s[0], both) {
        let later = lemma_front_cut(s.skip(1), both);
        assert(s.skip(1).skip(later) =~= s.skip(later + 1));
        assert forall|i: int| 0 <= i < later + 1 implies is_separator(#[trigger] s[i], both) by {
            if i > 0 {
                assert(s.skip(1)[i - 1] == s[i]);
            }
        }
        later + 1
    } else {
        assert(s.skip(0) =~= s);
        0
    }
}

proof fn lemma_back_cut(s: Seq<char>, both: bool)
    ensures
        trim_back(s, both).len() <= s.len(),
        trim_back(s, both) == s.take(trim_back(s, both).len() as int),
        forall|i: int|
            trim_back(s, both).len() <= i < s.len() ==> is_separator(#[trigger] s[i], both),
    decreases s.len(),
{
    if s.len() > 0 && is_separator(s.last(), both) {
        let shorter = s.drop_last();
        lemma_back_cut(shorter, both);
        let n = trim_back(s, both).len() as int;
        assert(shorter.take(n) =~= s.take(n));
        assert forall|i: int| n <= i < s.len() implies is_separator(#[trigger] s[i], both) by {
            if i < shorter.len() {
                assert(shorter[i] == s[i]);
            }
        }
    } else {
        assert(s.take(s.len() as int) =~= s);
    }
}

/// A text without outer separators is trimmed already.
pub proof fn trimming_keeps_a_bare_text(s: Seq<char>, both: bool)
    requires
        s.len() > 0 ==> !is_separator(s[0], both) && !is_separator(s.last(), both),
    ensures
        trimmed(s, both) == s,
{
}

/// Takes the separators off both ends of `s`.
pub fn trim_separators(s: &str, both: bool) -> (bare: String)
    ensures
        bare@ == trimmed(s@, both),
{
    let chars: Vec<char> = characters(s);
    let mut from: usize = 0;
    assert(chars@.skip(0) =~= chars@);
    while from < chars.len() && (chars[from] == '/' || (both && chars[from] == '\\'))
        invariant
            from <= chars@.len(),
            trim_front(chars@, both) == trim_front(chars@.skip(from as int), both),
        decreases chars@.len() - from,
    {
        assert(chars@.skip(from as int).skip(1) =~= chars@.skip(from + 1));
        from += 1;
    }
    let ghost front = chars@.skip(from as int);
    assert(trim_front(chars@, both) == front);
    let mut to: usize = chars.len();
    assert(chars@.subrange(from as int, to as int) =~= front);
    while to > from && (chars[to - 1] == '/' || (both && chars[to - 1] == '\\'))
        invariant
            from <= to <= chars@.len(),
            trim_back(front, both) == trim_back(chars@.subrange(from as int, to as int), both),
        decreases to,
    {
        assert(chars@.subrange(from as int, to as int).drop_last() =~= chars@.subrange(
            from as int,
            to - 1,
        ));
        to -= 1;
    }
    piece(&chars, from, to)
}

/// What `char::is_alphanumeric` answers for a character beyond ASCII: a matter
/// of the Unicode tables.
pub uninterp spec fn unicode_alphanumeric(c: char) -> bool;

/// A letter or a digit. In ASCII these are `a` to `z`, `A` to `Z` and `0` to
/// `9`.
pub open spec fn alphanumeric(c: char) -> bool {
    if (c as u32) < 128 {
        'a' <= c <= 'z' || 'A' <= c <= 'Z' || '0' <= c <= '9'
    } else {
        unicode_alphanumeric(c)
    }
}

/// Calls `char::is_alphanumeric`. Among the ASCII characters it holds of the
/// letters and the digits and of no other; beyond ASCII its answer is named.
#[verifier::external_body]
fn is_alphanumeric(c: char) -> (yes: bool)
    ensures
        yes == alphanumeric(c),
        (c as u32) >= 128 ==> yes == unicode_alphanumeric(c),
{
    c.is_alphanumeric()
}

/// The characters that a stored path may hold: letters and digits, `.`, `-`,
/// `_`, and `/` where `slash` says so.
pub open spec fn is_safe(c: char, slash: bool) -> bool {
    alphanumeric(c) || c == '.' || c == '-' || c == '_' || (slash && c == '/')
}

/// The safe characters of `s`, in order.
pub open spec fn only_safe(s: Seq<char>, slash: bool) -> Seq<char>
    decreases s.len(),
{
    if s.len() == 0 {
        s
    } else if is_safe(s.last(), slash) {
        only_safe(s.drop_last(), slash).push(s.last())
    } else {
        only_safe(s.drop_last(), slash)
    }
}

/// Every character that filtering leaves is safe.
pub proof fn only_safe_leaves_safe_characters(s: Seq<char>, slash: bool)
    ensures
        forall|i: int|
            0 <= i < only_safe(s, slash).len() ==> is_safe(#[trigger] only_safe(s, slash)[i], slash),
    decreases s.len(),
{
    if s.len() > 0 {
        only_safe_leaves_safe_characters(s.drop_last(), slash);
        let head = only_safe(s.drop_last(), slash);
        assert forall|i: int| 0 <= i < only_safe(s, slash).len() implies is_safe(
            #[trigger] only_safe(s, slash)[i],
            slash,
        ) by {
            if i < head.len() {
                assert(only_safe(s, slash)[i] == head[i]);
            }
        }
    }
}

/// A text of safe characters passes the filter unchanged.
pub proof fn only_safe_keeps_a_safe_text(s: Seq<char>, slash: bool)
    requires
        forall|i: int| 0 <= i < s.len() ==> is_safe(#[trigger] s[i], slash),
    ensures
        only_safe(s, slash) == s,
    decreases s.len(),
{
    if s.len() > 0 {
        only_safe_keeps_a_safe_text(s.drop_last(), slash);
        assert(s.drop_last().push(s.last()) =~= s);
    }
}

/// Keeps the safe characters of `s`.
pub fn keep_safe(s: &str, slash: bool) -> (kept: String)
    ensures
        kept@ == only_safe(s@, slash),
{
    let mut kept: String = String::new();
    for c in it: s.chars()
        invariant
            it.seq() == s@,
            kept@ == only_safe(s@.take(it.index()), slash),
    {
        assert(s@.take(it.index() + 1).drop_last() =~= s@.take(it.index()));
        if is_alphanumeric(c) || c == '.' || c == '-' || c == '_' || (slash && c == '/') {
            kept.push(c);
        }
    }
    assert(s@.take(s@.len() as int) =~= s@);
    kept
}

// ---------------------------------------------------------------------------
// Lower case
// ---------------------------------------------------------------------------
/// What `str::to_lowercase` makes of a text that is not all ASCII: a matter of
/// the Unicode tables.
pub uninterp spec fn unicode_lowercase(s: Seq<char>) -> Seq<char>;

/// Every character of `s` is an ASCII character.
pub open spec fn all_ascii(s: Seq<char>) -> bool {
    forall|i: int| 0 <= i < s.len() ==> (#[trigger] s[i] as u32) < 128
}

/// An ASCII character in lower case.
pub open spec fn ascii_lowercase(c: char) -> char {
    if 'A' <= c <= 'Z' {
        ((c as u32) + 32) as char
    } else {
        c
    }
}

/// `s` in lower case. In an ASCII text `A` to `Z` become `a` to `z`.
pub open spec fn lowercase(s: Seq<char>) -> Seq<char> {
    if all_ascii(s) {
        Seq::new(s.len(), |i: int| ascii_lowercase(s[i]))
    } else {
        unicode_lowercase(s)
    }
}

/// Calls `str::to_lowercase`. Of a text that is all ASCII it makes the text with
/// `A` to `Z` replaced by `a` to `z`; of any other its result is named.
#[verifier::external_body]
pub(crate) fn to_lowercase(s: &str) -> (low: String)
    ensures
        low@ == lowercase(s@),
        !all_ascii(s@) ==> low@ == unicode_lowercase(s@),
{
    s.to_lowercase()
}

} // verus!
