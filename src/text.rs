//! Character-level scanning over the input text.
//!
//! Every parser of the crate walks the input by character positions. The spec
//! functions here say where a run of characters ends and whether a literal
//! stands at a position; the exec functions compute the same on a `&str`.
use vstd::prelude::*;

verus! {

/// The classes of characters at which a run of the grammar ends.
#[derive(Clone, Copy, PartialEq, Eq, Debug)]
pub enum Stop {
    /// `?` or `#`: the end of a location, path or ref-or-rev.
    Query,
    /// `/`, `?` or `#`: the end of an owner or a repo.
    Segment,
    /// `:`, `?` or `#`: the end of a leading type tag.
    Tag,
    /// `/`.
    Slash,
    /// `=`, `&` or `#`: the end of a parameter key.
    Key,
    /// `&` or `#`: the end of a parameter value.
    Value,
    /// Any character that cannot stand in a registry id.
    NonId,
}

pub open spec fn is_id_char(c: char) -> bool {
    ('a' <= c && c <= 'z') || ('A' <= c && c <= 'Z') || ('0' <= c && c <= '9') || c == '-'
        || c == '_'
}

pub open spec fn is_alpha(c: char) -> bool {
    ('a' <= c && c <= 'z') || ('A' <= c && c <= 'Z')
}

impl Stop {
    pub open spec fn at(self, c: char) -> bool {
        match self {
            Stop::Query => c == '?' || c == '#',
            Stop::Segment => c == '/' || c == '?' || c == '#',
            Stop::Tag => c == ':' || c == '?' || c == '#',
            Stop::Slash => c == '/',
            Stop::Key => c == '=' || c == '&' || c == '#',
            Stop::Value => c == '&' || c == '#',
            Stop::NonId => !is_id_char(c),
        }
    }

    pub fn stops(&self, c: char) -> (r: bool)
        ensures
            r == self.at(c),
    {
        match self {
            Stop::Query => c == '?' || c == '#',
            Stop::Segment => c == '/' || c == '?' || c == '#',
            Stop::Tag => c == ':' || c == '?' || c == '#',
            Stop::Slash => c == '/',
            Stop::Key => c == '=' || c == '&' || c == '#',
            Stop::Value => c == '&' || c == '#',
            Stop::NonId => !is_id_char_exec(c),
        }
    }
}

pub fn is_id_char_exec(c: char) -> (r: bool)
    ensures
        r == is_id_char(c),
{
    ('a' <= c && c <= 'z') || ('A' <= c && c <= 'Z') || ('0' <= c && c <= '9') || c == '-'
        || c == '_'
}

pub fn is_alpha_exec(c: char) -> (r: bool)
    ensures
        r == is_alpha(c),
{
    ('a' <= c && c <= 'z') || ('A' <= c && c <= 'Z')
}

/// The first position at or after `i` whose character stops the run, or the
/// length of `s` where none does.
pub open spec fn scan(s: Seq<char>, i: int, stop: Stop) -> int
    decreases s.len() - i,
{
    if i >= s.len() {
        s.len() as int
    } else if stop.at(s[i]) {
        i
    } else {
        scan(s, i + 1, stop)
    }
}

/// The characters of an optional string.
pub open spec fn opt_view(o: Option<String>) -> Option<Seq<char>> {
    match o {
        Some(s) => Some(s@),
        None => None,
    }
}

/// The characters of an optional borrowed string.
pub open spec fn opt_str_view(o: Option<&str>) -> Option<Seq<char>> {
    match o {
        Some(s) => Some(s@),
        None => None,
    }
}

/// `p` stands in `s` at position `i`.
pub open spec fn starts_at(s: Seq<char>, i: int, p: Seq<char>) -> bool {
    0 <= i && i + p.len() <= s.len() && s.subrange(i, i + p.len()) == p
}

/// `s` ends with `p`.
pub open spec fn ends_with(s: Seq<char>, p: Seq<char>) -> bool {
    p.len() <= s.len() && s.subrange(s.len() - p.len(), s.len() as int) == p
}

/// The character at `i`, where there is one, is `c`.
pub open spec fn char_at(s: Seq<char>, i: int, c: char) -> bool {
    0 <= i < s.len() && s[i] == c
}

/// No character of `s` stops a run of the class `stop`.
pub open spec fn free_of(s: Seq<char>, stop: Stop) -> bool {
    forall|k: int| 0 <= k < s.len() ==> !stop.at(#[trigger] s[k])
}

pub proof fn lemma_scan(s: Seq<char>, i: int, stop: Stop)
    requires
        0 <= i <= s.len(),
    ensures
        i <= scan(s, i, stop) <= s.len(),
        forall|k: int| i <= k < scan(s, i, stop) ==> !stop.at(#[trigger] s[k]),
        scan(s, i, stop) < s.len() ==> stop.at(s[scan(s, i, stop)]),
    decreases s.len() - i,
{
    if i < s.len() && !stop.at(s[i]) {
        lemma_scan(s, i + 1, stop);
    }
}

/// A position that ends a run is the one that `scan` finds.
pub proof fn lemma_scan_is(s: Seq<char>, i: int, stop: Stop, j: int)
    requires
        0 <= i <= j <= s.len(),
        forall|k: int| i <= k < j ==> !stop.at(#[trigger] s[k]),
        j == s.len() || stop.at(s[j]),
    ensures
        scan(s, i, stop) == j,
    decreases j - i,
{
    if i < j {
        lemma_scan_is(s, i + 1, stop, j);
    }
}

/// Decides `starts_at` by comparing the characters one by one.
pub fn starts_with_at(s: &str, n: usize, i: usize, p: &str) -> (r: bool)
    requires
        n == s@.len(),
        i <= n,
    ensures
        r == starts_at(s@, i as int, p@),
{
    let m = p.unicode_len();
    if m > n - i {
        return false;
    }
    let mut k: usize = 0;
    while k < m
        invariant
            m == p@.len(),
            n == s@.len(),
            i + m <= n,
            k <= m,
            forall|j: int| 0 <= j < k ==> s@[i + j] == p@[j],
        decreases m - k,
    {
        if s.get_char(i + k) != p.get_char(k) {
            assert(s@.subrange(i as int, i + m)[k as int] != p@[k as int]);
            return false;
        }
        k += 1;
    }
    assert(s@.subrange(i as int, i + m) =~= p@);
    true
}

/// Finds `scan(s@, i, stop)`.
pub fn scan_exec(s: &str, n: usize, i: usize, stop: Stop) -> (r: usize)
    requires
        n == s@.len(),
        i <= n,
    ensures
        r == scan(s@, i as int, stop),
        i <= r <= n,
{
    let mut k = i;
    while k < n && !stop.stops(s.get_char(k))
        invariant
            n == s@.len(),
            i <= k <= n,
            scan(s@, k as int, stop) == scan(s@, i as int, stop),
        decreases n - k,
    {
        k += 1;
    }
    k
}

/// The character at `i`, where there is one, is `c`.
pub fn char_is(s: &str, n: usize, i: usize, c: char) -> (r: bool)
    requires
        n == s@.len(),
    ensures
        r == char_at(s@, i as int, c),
{
    i < n && s.get_char(i) == c
}

/// An owned copy of the characters in `[a, b)`.
pub fn slice(s: &str, a: usize, b: usize) -> (r: String)
    requires
        a <= b <= s@.len(),
    ensures
        r@ == s@.subrange(a as int, b as int),
{
    String::from_str(s.substring_char(a, b))
}

/// The borrowed text in `[a, b)`.
pub fn text_between<'a>(s: &'a str, a: usize, b: usize) -> (r: &'a str)
    requires
        a <= b <= s@.len(),
    ensures
        r@ == s@.subrange(a as int, b as int),
{
    s.substring_char(a, b)
}

/// Decides whether two strings hold the same characters.
pub fn str_eq(a: &str, b: &str) -> (r: bool)
    ensures
        r == (a@ == b@),
{
    let n = a.unicode_len();
    if n != b.unicode_len() {
        return false;
    }
    let r = starts_with_at(a, n, 0, b);
    assert(a@ =~= a@.subrange(0, n as int));
    r
}

/// Decides `ends_with`.
pub fn ends_with_exec(s: &str, p: &str) -> (r: bool)
    ensures
        r == ends_with(s@, p@),
{
    let n = s.unicode_len();
    let m = p.unicode_len();
    if m > n {
        return false;
    }
    starts_with_at(s, n, n - m, p)
}

} // verus!
