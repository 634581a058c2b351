//! The reference-type dispatcher: which of the forms a text is, and the
//! typed value it stands for.
use vstd::prelude::*;

use crate::error::{agrees, agrees_rest, ends_within, ErrorView, NixUriError};
use crate::forge::{forge_at, platform_at, platform_text, spec_forge, spec_platform, GitForge, GitForgeView};
use crate::parser::{is_tarball, is_tarball_name};
use crate::resource_url::{
    resource_at, resource_text, resource_type_at, spec_resource, spec_resource_type, ResourceType,
    ResourceUrl, ResourceView,
};
use crate::text::{
    char_at, is_alpha, is_alpha_exec, lemma_scan, opt_view, scan, scan_exec, slice, starts_at, starts_with_at,
    text_between, Stop,
};
use crate::transport_layer::{transport_text, TransportLayer};

verus! {

/// The kinds of reference. `Unset` is the empty value a reference has before
/// a kind is set; no parse of reference text yields it, and URL inference
/// gives it for hosts it does not know.
#[derive(Debug, Clone, PartialEq, Eq)]
#[non_exhaustive]
pub enum FlakeRefType {
    Resource(ResourceUrl),
    GitForge(GitForge),
    /// An id to look up in a registry, with an optional ref-or-rev.
    Indirect { id: String, ref_or_rev: Option<String> },
    /// A local path: absolute, or relative starting with `.`.
    Path { path: String },
    Unset,
}

/// The characters that a reference type holds.
pub enum TypeView {
    Resource(ResourceView),
    GitForge(GitForgeView),
    Indirect { id: Seq<char>, ref_or_rev: Option<Seq<char>> },
    Path { path: Seq<char> },
    Unset,
}

impl View for FlakeRefType {
    type V = TypeView;

    open spec fn view(&self) -> TypeView {
        match self {
            FlakeRefType::Resource(r) => TypeView::Resource(r@),
            FlakeRefType::GitForge(g) => TypeView::GitForge(g@),
            FlakeRefType::Indirect { id, ref_or_rev } => TypeView::Indirect {
                id: id@,
                ref_or_rev: opt_view(*ref_or_rev),
            },
            FlakeRefType::Path { path } => TypeView::Path { path: path@ },
            FlakeRefType::Unset => TypeView::Unset,
        }
    }
}

/// A character that a path may hold: ASCII, and neither `[` nor `]`.
pub open spec fn is_path_char(c: char) -> bool {
    c != '[' && c != ']' && c <= '\u{7f}'
}

pub open spec fn path_chars_ok(p: Seq<char>) -> bool {
    forall|k: int| 0 <= k < p.len() ==> is_path_char(#[trigger] p[k])
}

/// A path from `i` up to `?`, `#` or the end. It must start with `/` or
/// `.` and hold only path characters.
pub open spec fn spec_path_body(s: Seq<char>, i: int) -> Result<(TypeView, int), ErrorView> {
    let e = scan(s, i, Stop::Query);
    let p = s.subrange(i, e);
    if !(char_at(s, i, '/') || char_at(s, i, '.')) {
        Err(ErrorView::NotAbsolute(p))
    } else if !path_chars_ok(p) {
        Err(ErrorView::PathCharacter(p))
    } else {
        Ok((TypeView::Path { path: p }, e))
    }
}

/// A path with an optional `path:` or `path://` prefix. After the prefix
/// the path must be absolute.
pub open spec fn spec_path(s: Seq<char>, i: int) -> Result<(TypeView, int), ErrorView> {
    if starts_at(s, i, "path:"@) {
        let j = if starts_at(s, i + 5, "//"@) {
            i + 7
        } else {
            i + 5
        };
        if char_at(s, j, '/') {
            spec_path_body(s, j)
        } else {
            Err(ErrorView::NotAbsolute(s.subrange(j, scan(s, j, Stop::Query))))
        }
    } else {
        spec_path_body(s, i)
    }
}

/// A plain `http:` or `https:` URL at `i`.
pub open spec fn plain_lead(s: Seq<char>, i: int) -> bool {
    (starts_at(s, i, "https"@) && char_at(s, i + 5, ':')) || (starts_at(s, i, "http"@) && char_at(
        s,
        i + 4,
        ':',
    ))
}

/// A plain URL: an archive name makes it a tarball, anything else a file.
pub open spec fn spec_plain_url(s: Seq<char>, i: int) -> Result<(ResourceView, int), ErrorView> {
    let (t, j) = if starts_at(s, i, "https"@) && char_at(s, i + 5, ':') {
        (TransportLayer::Https, i + 5)
    } else {
        (TransportLayer::Http, i + 4)
    };
    if !plain_lead(s, i) {
        Err(ErrorView::ParseError(s.subrange(i, s.len() as int)))
    } else if !starts_at(s, j, "://"@) {
        Err(ErrorView::ParseError(s.subrange(j, s.len() as int)))
    } else {
        let e = scan(s, j + 3, Stop::Query);
        let loc = s.subrange(j + 3, e);
        Ok(
            (
                ResourceView {
                    res_type: if is_tarball_name(loc) {
                        ResourceType::Tarball
                    } else {
                        ResourceType::File
                    },
                    location: loc,
                    transport_type: Some(t),
                },
                e,
            ),
        )
    }
}

/// A registry id at `i`: a letter, then letters, digits, `-` and `_`,
/// ended by `/`, `?`, `#` or the end; then optionally `/` and a
/// ref-or-rev up to `?`, `#` or the end.
pub open spec fn spec_indirect_body(s: Seq<char>, i: int) -> Result<(TypeView, int), ErrorView> {
    let ie = scan(s, i, Stop::NonId);
    if ie == i || !is_alpha(s[i]) || !(ie == s.len() || s[ie] == '/' || s[ie] == '?' || s[ie]
        == '#') {
        Err(ErrorView::InvalidUrl(s.subrange(i, scan(s, i, Stop::Query))))
    } else if char_at(s, ie, '/') {
        let re = scan(s, ie + 1, Stop::Query);
        Ok(
            (
                TypeView::Indirect {
                    id: s.subrange(i, ie),
                    ref_or_rev: if re > ie + 1 {
                        Some(s.subrange(ie + 1, re))
                    } else {
                        None
                    },
                },
                re,
            ),
        )
    } else {
        Ok((TypeView::Indirect { id: s.subrange(i, ie), ref_or_rev: None }, ie))
    }
}

/// The rest of the input from `i` on holds two `/` or more.
pub open spec fn two_slashes(s: Seq<char>, i: int) -> bool {
    let f = scan(s, i, Stop::Slash);
    f < s.len() && scan(s, f + 1, Stop::Slash) < s.len()
}

/// A bare registry id, without `flake:`: the rest of the input may hold
/// at most one `/`.
pub open spec fn spec_bare_indirect(s: Seq<char>, i: int) -> Result<(TypeView, int), ErrorView> {
    if two_slashes(s, i) {
        Err(ErrorView::InvalidUrl(s.subrange(i, scan(s, i, Stop::Query))))
    } else {
        spec_indirect_body(s, i)
    }
}

/// The forge shorthand commits once a platform tag and its `:` are read.
pub open spec fn forge_lead(s: Seq<char>, i: int) -> bool {
    match spec_platform(s, i) {
        Some((_, j)) => char_at(s, j, ':'),
        None => false,
    }
}

/// The resource form commits once a kind tag and a `+` or `:` are read.
pub open spec fn resource_lead(s: Seq<char>, i: int) -> bool {
    match spec_resource_type(s, i) {
        Some((_, j)) => char_at(s, j, '+') || char_at(s, j, ':'),
        None => false,
    }
}

pub open spec fn lift_forge(r: Result<(GitForgeView, int), ErrorView>) -> Result<
    (TypeView, int),
    ErrorView,
> {
    match r {
        Ok((g, j)) => Ok((TypeView::GitForge(g), j)),
        Err(e) => Err(e),
    }
}

pub open spec fn lift_resource(r: Result<(ResourceView, int), ErrorView>) -> Result<
    (TypeView, int),
    ErrorView,
> {
    match r {
        Ok((u, j)) => Ok((TypeView::Resource(u), j)),
        Err(e) => Err(e),
    }
}

/// The dispatcher. The forms are tried in a fixed order, and the first
/// whose lead tag matches decides: paths (`path:`, `/`, `.`), forge
/// shorthands, `flake:` ids, plain `http(s):` URLs, resources. Text with
/// another tag before a `:` (and before any `?` or `#`) is an unknown
/// type; what is left is a bare registry id.
pub open spec fn spec_dispatch(s: Seq<char>, i: int) -> Result<(TypeView, int), ErrorView> {
    if starts_at(s, i, "path:"@) || char_at(s, i, '/') || char_at(s, i, '.') {
        spec_path(s, i)
    } else if forge_lead(s, i) {
        lift_forge(spec_forge(s, i))
    } else if starts_at(s, i, "flake:"@) {
        spec_indirect_body(s, i + 6)
    } else if plain_lead(s, i) {
        lift_resource(spec_plain_url(s, i))
    } else if resource_lead(s, i) {
        lift_resource(spec_resource(s, i))
    } else {
        let te = scan(s, i, Stop::Tag);
        if char_at(s, te, ':') {
            Err(ErrorView::UnknownUriType(s.subrange(i, te)))
        } else {
            spec_bare_indirect(s, i)
        }
    }
}

/// The whole text is one reference type. Text left after a path (a `?` or
/// `#`) makes the path's characters illegal; after other types it is a
/// parse error.
pub open spec fn spec_parse_type(s: Seq<char>) -> Result<TypeView, ErrorView> {
    match spec_dispatch(s, 0) {
        Ok((t, j)) => if j == s.len() {
            Ok(t)
        } else {
            match t {
                TypeView::Path { path } => Err(
                    ErrorView::PathCharacter(path + s.subrange(j, s.len() as int)),
                ),
                _ => Err(ErrorView::ParseError(s.subrange(j, s.len() as int))),
            }
        },
        Err(e) => Err(e),
    }
}

/// The canonical text of a reference type.
pub open spec fn render_type(t: TypeView) -> Seq<char> {
    match t {
        TypeView::Resource(r) => resource_text(r.res_type) + match r.transport_type {
            Some(tl) => "+"@ + transport_text(tl),
            None => Seq::empty(),
        } + "://"@ + r.location,
        TypeView::GitForge(g) => platform_text(g.platform) + ":"@ + g.owner + "/"@ + g.repo
            + match g.ref_or_rev {
            Some(x) => "/"@ + x,
            None => Seq::empty(),
        },
        TypeView::Indirect { id, ref_or_rev } => id + match ref_or_rev {
            Some(x) => "/"@ + x,
            None => Seq::empty(),
        },
        TypeView::Path { path } => path,
        TypeView::Unset => Seq::empty(),
    }
}

/// Decides `path_chars_ok(s@.subrange(a, b))`.
fn path_chars_ok_exec(s: &str, a: usize, b: usize) -> (r: bool)
    requires
        a <= b <= s@.len(),
    ensures
        r == path_chars_ok(s@.subrange(a as int, b as int)),
{
    let mut k = a;
    while k < b
        invariant
            a <= k <= b <= s@.len(),
            forall|j: int| a <= j < k ==> is_path_char(#[trigger] s@[j]),
        decreases b - k,
    {
        let c = s.get_char(k);
        if !(c != '[' && c != ']' && c <= '\u{7f}') {
            assert(!is_path_char(s@.subrange(a as int, b as int)[k - a]));
            return false;
        }
        k += 1;
    }
    assert forall|j: int| 0 <= j < b - a implies is_path_char(
        #[trigger] s@.subrange(a as int, b as int)[j],
    ) by {
        assert(is_path_char(s@[a + j]));
    }
    true
}

/// Finds `spec_path_body(s@, i)`.
fn path_body_at(s: &str, n: usize, i: usize) -> (r: Result<(FlakeRefType, usize), NixUriError>)
    requires
        n == s@.len(),
        i <= n,
    ensures
        agrees(r, spec_path_body(s@, i as int)),
        ends_within(r, n),
{
    let e = scan_exec(s, n, i, Stop::Query);
    if !(i < n && (s.get_char(i) == '/' || s.get_char(i) == '.')) {
        Err(NixUriError::NotAbsolute(slice(s, i, e)))
    } else if !path_chars_ok_exec(s, i, e) {
        Err(NixUriError::PathCharacter(slice(s, i, e)))
    } else {
        Ok((FlakeRefType::Path { path: slice(s, i, e) }, e))
    }
}

/// Finds `spec_path(s@, i)`.
fn path_at(s: &str, n: usize, i: usize) -> (r: Result<(FlakeRefType, usize), NixUriError>)
    requires
        n == s@.len(),
        i <= n,
    ensures
        agrees(r, spec_path(s@, i as int)),
        ends_within(r, n),
{
    proof {
        reveal_strlit("path:");
        reveal_strlit("//");
    }
    if starts_with_at(s, n, i, "path:") {
        let j = if starts_with_at(s, n, i + 5, "//") {
            i + 7
        } else {
            i + 5
        };
        if j < n && s.get_char(j) == '/' {
            path_body_at(s, n, j)
        } else {
            let e = scan_exec(s, n, j, Stop::Query);
            Err(NixUriError::NotAbsolute(slice(s, j, e)))
        }
    } else {
        path_body_at(s, n, i)
    }
}

/// Decides `plain_lead(s@, i)`.
fn plain_lead_exec(s: &str, n: usize, i: usize) -> (r: bool)
    requires
        n == s@.len(),
        i <= n,
    ensures
        r == plain_lead(s@, i as int),
{
    proof {
        reveal_strlit("https");
        reveal_strlit("http");
    }
    (starts_with_at(s, n, i, "https") && i + 5 < n && s.get_char(i + 5) == ':') || (
    starts_with_at(s, n, i, "http") && i + 4 < n && s.get_char(i + 4) == ':')
}

/// Finds `spec_plain_url(s@, i)`.
fn plain_url_at(s: &str, n: usize, i: usize) -> (r: Result<(ResourceUrl, usize), NixUriError>)
    requires
        n == s@.len(),
        i <= n,
    ensures
        agrees(r, spec_plain_url(s@, i as int)),
        ends_within(r, n),
{
    proof {
        reveal_strlit("https");
        reveal_strlit("http");
        reveal_strlit("://");
    }
    if !plain_lead_exec(s, n, i) {
        return Err(NixUriError::ParseError(slice(s, i, n)));
    }
    let (t, j) = if starts_with_at(s, n, i, "https") && i + 5 < n && s.get_char(i + 5) == ':' {
        (TransportLayer::Https, i + 5)
    } else {
        (TransportLayer::Http, i + 4)
    };
    if !starts_with_at(s, n, j, "://") {
        return Err(NixUriError::ParseError(slice(s, j, n)));
    }
    let e = scan_exec(s, n, j + 3, Stop::Query);
    let loc = text_between(s, j + 3, e);
    let res_type = if is_tarball(loc) {
        ResourceType::Tarball
    } else {
        ResourceType::File
    };
    Ok((ResourceUrl { res_type, location: String::from_str(loc), transport_type: Some(t) }, e))
}

/// Finds `spec_indirect_body(s@, i)`.
fn indirect_at(s: &str, n: usize, i: usize) -> (r: Result<(FlakeRefType, usize), NixUriError>)
    requires
        n == s@.len(),
        i <= n,
    ensures
        agrees(r, spec_indirect_body(s@, i as int)),
        ends_within(r, n),
{
    let ie = scan_exec(s, n, i, Stop::NonId);
    if ie == i || !is_alpha_exec(s.get_char(i)) || !(ie == n || s.get_char(ie) == '/'
        || s.get_char(ie) == '?' || s.get_char(ie) == '#') {
        let we = scan_exec(s, n, i, Stop::Query);
        return Err(NixUriError::InvalidUrl(slice(s, i, we)));
    }
    if ie < n && s.get_char(ie) == '/' {
        let re = scan_exec(s, n, ie + 1, Stop::Query);
        let ref_or_rev = if re - ie > 1 {
            Some(slice(s, ie + 1, re))
        } else {
            None
        };
        Ok((FlakeRefType::Indirect { id: slice(s, i, ie), ref_or_rev }, re))
    } else {
        Ok((FlakeRefType::Indirect { id: slice(s, i, ie), ref_or_rev: None }, ie))
    }
}

/// Finds `spec_bare_indirect(s@, i)`.
fn bare_indirect_at(s: &str, n: usize, i: usize) -> (r: Result<(FlakeRefType, usize), NixUriError>)
    requires
        n == s@.len(),
        i <= n,
    ensures
        agrees(r, spec_bare_indirect(s@, i as int)),
        ends_within(r, n),
{
    let f = scan_exec(s, n, i, Stop::Slash);
    if f < n && scan_exec(s, n, f + 1, Stop::Slash) < n {
        let we = scan_exec(s, n, i, Stop::Query);
        return Err(NixUriError::InvalidUrl(slice(s, i, we)));
    }
    indirect_at(s, n, i)
}

/// Decides `forge_lead(s@, i)`.
fn forge_lead_exec(s: &str, n: usize, i: usize) -> (r: bool)
    requires
        n == s@.len(),
        i <= n,
    ensures
        r == forge_lead(s@, i as int),
{
    match platform_at(s, n, i) {
        Some((_, j)) => j < n && s.get_char(j) == ':',
        None => false,
    }
}

/// Decides `resource_lead(s@, i)`.
fn resource_lead_exec(s: &str, n: usize, i: usize) -> (r: bool)
    requires
        n == s@.len(),
        i <= n,
    ensures
        r == resource_lead(s@, i as int),
{
    match resource_type_at(s, n, i) {
        Some((_, j)) => j < n && (s.get_char(j) == '+' || s.get_char(j) == ':'),
        None => false,
    }
}

/// Finds `spec_dispatch(s@, i)`.
pub fn dispatch_at(s: &str, n: usize, i: usize) -> (r: Result<(FlakeRefType, usize), NixUriError>)
    requires
        n == s@.len(),
        i <= n,
    ensures
        agrees(r, spec_dispatch(s@, i as int)),
        ends_within(r, n),
{
    proof {
        reveal_strlit("path:");
        reveal_strlit("flake:");
    }
    if starts_with_at(s, n, i, "path:") || (i < n && (s.get_char(i) == '/' || s.get_char(i)
        == '.')) {
        path_at(s, n, i)
    } else if forge_lead_exec(s, n, i) {
        match forge_at(s, n, i) {
            Ok((g, j)) => Ok((FlakeRefType::GitForge(g), j)),
            Err(e) => Err(e),
        }
    } else if starts_with_at(s, n, i, "flake:") {
        indirect_at(s, n, i + 6)
    } else if plain_lead_exec(s, n, i) {
        match plain_url_at(s, n, i) {
            Ok((u, j)) => Ok((FlakeRefType::Resource(u), j)),
            Err(e) => Err(e),
        }
    } else if resource_lead_exec(s, n, i) {
        match resource_at(s, n, i) {
            Ok((u, j)) => Ok((FlakeRefType::Resource(u), j)),
            Err(e) => Err(e),
        }
    } else {
        let te = scan_exec(s, n, i, Stop::Tag);
        if te < n && s.get_char(te) == ':' {
            Err(NixUriError::UnknownUriType(slice(s, i, te)))
        } else {
            bare_indirect_at(s, n, i)
        }
    }
}

/// A `file` resource, or else a path.
pub open spec fn spec_file(s: Seq<char>, i: int) -> Result<(TypeView, int), ErrorView> {
    match spec_resource_type(s, i) {
        Some((ResourceType::File, j)) => if char_at(s, j, '+') || char_at(s, j, ':') {
            lift_resource(spec_resource(s, i))
        } else {
            spec_path(s, i)
        },
        _ => spec_path(s, i),
    }
}

/// The borrowed remainder for an exec result at positions of `s`.
fn with_rest<'a, T>(s: &'a str, n: usize, r: Result<(T, usize), NixUriError>) -> (out: Result<
    (&'a str, T),
    NixUriError,
>)
    requires
        n == s@.len(),
        ends_within(r, n),
    ensures
        match (r, out) {
            (Ok((v, j)), Ok((rest, w))) => w == v && rest@ == s@.subrange(j as int, n as int),
            (Err(e), Err(f)) => e == f,
            _ => false,
        },
{
    match r {
        Ok((v, j)) => Ok((text_between(s, j, n), v)),
        Err(e) => Err(e),
    }
}

impl Default for FlakeRefType {
    fn default() -> (r: Self)
        ensures
            r@ == TypeView::Unset,
    {
        FlakeRefType::Unset
    }
}

/// A path from `0` on as text: `spec_path_body`'s path and end.
pub open spec fn path_text_agrees(
    r: Result<(&str, &str), NixUriError>,
    s: Seq<char>,
    m: Result<(TypeView, int), ErrorView>,
) -> bool {
    match (r, m) {
        (Ok((rest, p)), Ok((TypeView::Path { path }, e))) => p@ == path && rest@ == s.subrange(
            e,
            s.len() as int,
        ),
        (Err(e), Err(se)) => e@ == se,
        _ => false,
    }
}

/// The text at `i` up to `?`, `#` or the end, where it holds only path
/// characters.
pub open spec fn spec_path_verify(s: Seq<char>, i: int) -> Result<(TypeView, int), ErrorView> {
    let e = scan(s, i, Stop::Query);
    if path_chars_ok(s.subrange(i, e)) {
        Ok((TypeView::Path { path: s.subrange(i, e) }, e))
    } else {
        Err(ErrorView::PathCharacter(s.subrange(i, e)))
    }
}

/// `file`, an optional `+file`, `:`, an optional `//`, then a path.
pub open spec fn spec_explicit_file(s: Seq<char>) -> Result<(TypeView, int), ErrorView> {
    let j: int = if starts_at(s, 4, "+file"@) {
        9
    } else {
        4
    };
    let k = if starts_at(s, j + 1, "//"@) {
        j + 3
    } else {
        j + 1
    };
    if !starts_at(s, 0, "file"@) {
        Err(ErrorView::ParseError(s))
    } else if !char_at(s, j, ':') {
        Err(ErrorView::ParseError(s.subrange(j, s.len() as int)))
    } else {
        spec_path_body(s, k)
    }
}

/// `file+http://` or `file+https://`, then the location as a path.
pub open spec fn spec_http_file(s: Seq<char>) -> Result<(TypeView, int), ErrorView> {
    let j: int = if starts_at(s, 0, "file+http://"@) {
        12
    } else {
        13
    };
    if !(starts_at(s, 0, "file+http://"@) || starts_at(s, 0, "file+https://"@)) {
        Err(ErrorView::ParseError(s))
    } else {
        let e = scan(s, j, Stop::Query);
        Ok((TypeView::Path { path: s.subrange(j, e) }, e))
    }
}

/// The borrowed text `[a, e)` and the remainder after it, for a path result.
fn path_text<'a>(s: &'a str, n: usize, a: usize, r: Result<(FlakeRefType, usize), NixUriError>) -> (out:
    Result<(&'a str, &'a str), NixUriError>)
    requires
        n == s@.len(),
        a <= n,
        ends_within(r, n),
        match r {
            Ok((FlakeRefType::Path { path }, e)) => a <= e && path@ == s@.subrange(a as int, e as int),
            Ok(_) => false,
            Err(_) => true,
        },
    ensures
        match (r, out) {
            (Ok((t, e)), Ok((rest, p))) => t@ == (TypeView::Path { path: p@ }) && rest@
                == s@.subrange(e as int, n as int),
            (Err(e), Err(f)) => e == f,
            _ => false,
        },
{
    match r {
        Ok((_, e)) => Ok((text_between(s, e, n), text_between(s, a, e))),
        Err(e) => Err(e),
    }
}

impl FlakeRefType {
    /// Reads a path that starts with `.` or `/`, as text.
    pub fn path_parser<'a>(input: &'a str) -> (r: Result<(&'a str, &'a str), NixUriError>)
        ensures
            path_text_agrees(r, input@, spec_path_body(input@, 0)),
    {
        let n = input.unicode_len();
        path_text(input, n, 0, path_body_at(input, n, 0))
    }

    /// Reads a path without any prefix, as text; the same as `path_parser`.
    pub fn parse_naked<'a>(input: &'a str) -> (r: Result<(&'a str, &'a str), NixUriError>)
        ensures
            path_text_agrees(r, input@, spec_path_body(input@, 0)),
    {
        FlakeRefType::path_parser(input)
    }

    /// Reads text up to `?`, `#` or the end, where it holds only path
    /// characters.
    pub fn path_verifier<'a>(input: &'a str) -> (r: Result<(&'a str, &'a str), NixUriError>)
        ensures
            path_text_agrees(r, input@, spec_path_verify(input@, 0)),
    {
        let n = input.unicode_len();
        let e = scan_exec(input, n, 0, Stop::Query);
        if path_chars_ok_exec(input, 0, e) {
            Ok((text_between(input, e, n), text_between(input, 0, e)))
        } else {
            Err(NixUriError::PathCharacter(slice(input, 0, e)))
        }
    }

    /// Reads `file:`, `file://`, `file+file:` or `file+file://` and then a
    /// path, as text.
    pub fn parse_explicit_file_scheme<'a>(input: &'a str) -> (r: Result<
        (&'a str, &'a str),
        NixUriError,
    >)
        ensures
            path_text_agrees(r, input@, spec_explicit_file(input@)),
    {
        proof {
            reveal_strlit("file");
            reveal_strlit("+file");
            reveal_strlit("//");
        }
        let n = input.unicode_len();
        if !starts_with_at(input, n, 0, "file") {
            return Err(NixUriError::ParseError(String::from_str(input)));
        }
        let j: usize = if starts_with_at(input, n, 4, "+file") {
            9
        } else {
            4
        };
        if !(j < n && input.get_char(j) == ':') {
            return Err(NixUriError::ParseError(slice(input, j, n)));
        }
        let k = if starts_with_at(input, n, j + 1, "//") {
            j + 3
        } else {
            j + 1
        };
        proof {
            lemma_scan(input@, k as int, Stop::Query);
        }
        path_text(input, n, k, path_body_at(input, n, k))
    }

    /// Reads `file+http://` or `file+https://` and then a `file` resource
    /// with that transport.
    pub fn parse_file_with_http_transport<'a>(input: &'a str) -> (r: Result<
        (&'a str, FlakeRefType),
        NixUriError,
    >)
        ensures
            agrees_rest(
                r,
                input@,
                if starts_at(input@, 0, "file+http"@) {
                    lift_resource(spec_resource(input@, 0))
                } else {
                    Err(ErrorView::ParseError(input@))
                },
            ),
    {
        let n = input.unicode_len();
        if !starts_with_at(input, n, 0, "file+http") {
            return Err(NixUriError::ParseError(String::from_str(input)));
        }
        FlakeRefType::parse_resource(input)
    }

    /// Reads `file+http://` or `file+https://` and returns the location up
    /// to `?`, `#` or the end, as text.
    pub fn parse_http_file_scheme<'a>(input: &'a str) -> (r: Result<
        (&'a str, &'a str),
        NixUriError,
    >)
        ensures
            path_text_agrees(r, input@, spec_http_file(input@)),
    {
        proof {
            reveal_strlit("file+http://");
            reveal_strlit("file+https://");
        }
        let n = input.unicode_len();
        let j: usize = if starts_with_at(input, n, 0, "file+http://") {
            12
        } else if starts_with_at(input, n, 0, "file+https://") {
            13
        } else {
            return Err(NixUriError::ParseError(String::from_str(input)));
        };
        let e = scan_exec(input, n, j, Stop::Query);
        Ok((text_between(input, e, n), text_between(input, j, e)))
    }

    /// Reads the reference type at the start of `input` (see
    /// `spec_dispatch`). The remainder starts at the `?` or `#` that ends the
    /// type, or is empty.
    pub fn parse<'a>(input: &'a str) -> (r: Result<(&'a str, FlakeRefType), NixUriError>)
        ensures
            agrees_rest(r, input@, spec_dispatch(input@, 0)),
    {
        let n = input.unicode_len();
        with_rest(input, n, dispatch_at(input, n, 0))
    }

    /// Reads `input` as one reference type, with nothing after it.
    pub fn parse_type(input: &str) -> (r: Result<FlakeRefType, NixUriError>)
        ensures
            match (r, spec_parse_type(input@)) {
                (Ok(t), Ok(st)) => t@ == st,
                (Err(e), Err(se)) => e@ == se,
                _ => false,
            },
    {
        let n = input.unicode_len();
        match dispatch_at(input, n, 0) {
            Ok((t, j)) => if j == n {
                Ok(t)
            } else {
                match t {
                    FlakeRefType::Path { path } => {
                        let mut text = path;
                        text.append(text_between(input, j, n));
                        Err(NixUriError::PathCharacter(text))
                    },
                    _ => Err(NixUriError::ParseError(slice(input, j, n))),
                }
            },
            Err(e) => Err(e),
        }
    }

    /// Reads a path, with or without a `path:` prefix.
    pub fn parse_path<'a>(input: &'a str) -> (r: Result<(&'a str, FlakeRefType), NixUriError>)
        ensures
            agrees_rest(r, input@, spec_path(input@, 0)),
    {
        let n = input.unicode_len();
        with_rest(input, n, path_at(input, n, 0))
    }

    /// Reads a `file` resource, or else a path.
    pub fn parse_file<'a>(input: &'a str) -> (r: Result<(&'a str, FlakeRefType), NixUriError>)
        ensures
            agrees_rest(r, input@, spec_file(input@, 0)),
    {
        let n = input.unicode_len();
        let r = match resource_type_at(input, n, 0) {
            Some((ResourceType::File, j)) => {
                if j < n && (input.get_char(j) == '+' || input.get_char(j) == ':') {
                    match resource_at(input, n, 0) {
                        Ok((u, e)) => Ok((FlakeRefType::Resource(u), e)),
                        Err(e) => Err(e),
                    }
                } else {
                    path_at(input, n, 0)
                }
            },
            _ => path_at(input, n, 0),
        };
        with_rest(input, n, r)
    }

    /// Reads a forge shorthand.
    pub fn parse_git_forge<'a>(input: &'a str) -> (r: Result<
        (&'a str, FlakeRefType),
        NixUriError,
    >)
        ensures
            agrees_rest(r, input@, lift_forge(spec_forge(input@, 0))),
    {
        let n = input.unicode_len();
        let r = match forge_at(input, n, 0) {
            Ok((g, j)) => Ok((FlakeRefType::GitForge(g), j)),
            Err(e) => Err(e),
        };
        with_rest(input, n, r)
    }

    /// Reads a resource `<kind>[+<transport>]://<location>`.
    pub fn parse_resource<'a>(input: &'a str) -> (r: Result<
        (&'a str, FlakeRefType),
        NixUriError,
    >)
        ensures
            agrees_rest(r, input@, lift_resource(spec_resource(input@, 0))),
    {
        let n = input.unicode_len();
        let r = match resource_at(input, n, 0) {
            Ok((u, j)) => Ok((FlakeRefType::Resource(u), j)),
            Err(e) => Err(e),
        };
        with_rest(input, n, r)
    }

    /// Reads a plain `http://` or `https://` URL as a tarball or a file.
    pub fn parse_plain_url<'a>(input: &'a str) -> (r: Result<
        (&'a str, FlakeRefType),
        NixUriError,
    >)
        ensures
            agrees_rest(r, input@, lift_resource(spec_plain_url(input@, 0))),
    {
        let n = input.unicode_len();
        let r = match plain_url_at(input, n, 0) {
            Ok((u, j)) => Ok((FlakeRefType::Resource(u), j)),
            Err(e) => Err(e),
        };
        with_rest(input, n, r)
    }

    /// Reads a registry id, bare or after `flake:`.
    pub fn parse_indirect<'a>(input: &'a str) -> (r: Result<
        (&'a str, FlakeRefType),
        NixUriError,
    >)
        ensures
            agrees_rest(
                r,
                input@,
                if starts_at(input@, 0, "flake:"@) {
                    spec_indirect_body(input@, 6)
                } else {
                    spec_bare_indirect(input@, 0)
                },
            ),
    {
        proof {
            reveal_strlit("flake:");
        }
        let n = input.unicode_len();
        let r = if starts_with_at(input, n, 0, "flake:") {
            indirect_at(input, n, 6)
        } else {
            bare_indirect_at(input, n, 0)
        };
        with_rest(input, n, r)
    }

    /// The repo of a forge reference; other kinds have none.
    pub fn get_id(&self) -> (r: Option<String>)
        ensures
            opt_view(r) == match self@ {
                TypeView::GitForge(g) => Some(g.repo),
                _ => None,
            },
    {
        self.get_repo()
    }

    /// The repo of a forge reference; other kinds have none.
    pub fn get_repo(&self) -> (r: Option<String>)
        ensures
            opt_view(r) == match self@ {
                TypeView::GitForge(g) => Some(g.repo),
                _ => None,
            },
    {
        match self {
            FlakeRefType::GitForge(g) => Some(String::from_str(g.repo.as_str())),
            _ => None,
        }
    }

    /// The owner of a forge reference; other kinds have none.
    pub fn get_owner(&self) -> (r: Option<String>)
        ensures
            opt_view(r) == match self@ {
                TypeView::GitForge(g) => Some(g.owner),
                _ => None,
            },
    {
        match self {
            FlakeRefType::GitForge(g) => Some(String::from_str(g.owner.as_str())),
            _ => None,
        }
    }

    /// Sets the ref-or-rev of a forge or registry reference. Other kinds
    /// have none: they are left as they are and the call fails.
    pub fn ref_or_rev(&mut self, ref_or_rev_alt: Option<String>) -> (r: Result<(), NixUriError>)
        ensures
            match old(self)@ {
                TypeView::GitForge(g) => r is Ok && final(self)@ == TypeView::GitForge(
                    GitForgeView { ref_or_rev: opt_view(ref_or_rev_alt), ..g },
                ),
                TypeView::Indirect { id, ref_or_rev: _ } => r is Ok && final(self)@
                    == TypeView::Indirect { id, ref_or_rev: opt_view(ref_or_rev_alt) },
                _ => *final(self) == *old(self) && match r {
                    Err(e) => e@ == ErrorView::UnsupportedByType(
                        "ref_or_rev"@,
                        "git-forge types && indirect types"@,
                    ),
                    Ok(_) => false,
                },
            },
    {
        match self {
            FlakeRefType::GitForge(g) => {
                g.ref_or_rev = ref_or_rev_alt;
                Ok(())
            },
            FlakeRefType::Indirect { ref_or_rev, .. } => {
                *ref_or_rev = ref_or_rev_alt;
                Ok(())
            },
            _ => Err(
                NixUriError::UnsupportedByType(
                    String::from_str("ref_or_rev"),
                    String::from_str("git-forge types && indirect types"),
                ),
            ),
        }
    }

    /// The canonical text of the type (`render_type`). The unset kind has
    /// the empty text.
    pub fn to_string(&self) -> (r: String)
        ensures
            r@ == render_type(self@),
    {
        proof {
            reveal_strlit("+");
            reveal_strlit("://");
            reveal_strlit(":");
            reveal_strlit("/");
        }
        let mut out = String::new();
        match self {
            FlakeRefType::Resource(u) => {
                out.append(u.res_type.as_str());
                if let Some(t) = &u.transport_type {
                    out.append("+");
                    out.append(t.as_str());
                }
                out.append("://");
                out.append(u.location.as_str());
            },
            FlakeRefType::GitForge(g) => {
                out.append(g.platform.as_str());
                out.append(":");
                out.append(g.owner.as_str());
                out.append("/");
                out.append(g.repo.as_str());
                if let Some(x) = &g.ref_or_rev {
                    out.append("/");
                    out.append(x.as_str());
                }
            },
            FlakeRefType::Indirect { id, ref_or_rev } => {
                out.append(id.as_str());
                if let Some(x) = ref_or_rev {
                    out.append("/");
                    out.append(x.as_str());
                }
            },
            FlakeRefType::Path { path } => {
                out.append(path.as_str());
            },
            FlakeRefType::Unset => {},
        }
        assert(out@ =~= render_type(self@));
        out
    }
}

} // verus!
