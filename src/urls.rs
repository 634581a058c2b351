//! Inference of a reference from an ordinary web URL, such as
//! `https://github.com/owner/repo`. The URL itself is read by the `url`
//! crate; what it finds (host, path segments, query) is interpreted here.
use vstd::prelude::*;

use crate::error::{ErrorView, NixUriError};
use crate::flakeref::{FlakeRef, FlakeRefView};
use crate::forge::{GitForge, GitForgePlatform, GitForgeView};
use crate::fr_type::{FlakeRefType, TypeView};
use crate::location_params::{params_at, spec_params, empty_params};
use crate::parser::{is_tarball, is_tarball_name, parse_nix_uri, spec_parse};
use crate::text::{opt_view, str_eq};

verus! {

/// The URL type of the `url` crate, held as an opaque value.
#[verifier::external_type_specification]
#[verifier::external_body]
pub struct ExUrl(url::Url);

/// The host that `url::Url::parse` finds in the text, as `Url::host_str`
/// gives it; none where the parser rejects the text or finds no host.
pub uninterp spec fn url_host_of(s: Seq<char>) -> Option<Seq<char>>;

/// The path segments that `url::Url::parse` finds in the text, as
/// `Url::path_segments` gives them; none where the parser rejects the text
/// or the URL cannot be a base.
pub uninterp spec fn url_segments_of(s: Seq<char>) -> Option<Seq<Seq<char>>>;

/// The query that `url::Url::parse` finds in the text, without its `?`, as
/// `Url::query` gives it; none where the parser rejects the text or finds
/// no query.
pub uninterp spec fn url_query_of(s: Seq<char>) -> Option<Seq<char>>;

/// Relies on `url::Url::parse` and, on the URL it reads, `Url::host_str`,
/// `Url::path_segments` and `Url::query`: the host, the path segments and
/// the query, each a function of the input text alone.
#[verifier::external_body]
fn url_parts(input: &str) -> (r: (Option<String>, Option<Vec<String>>, Option<String>))
    ensures
        opt_view(r.0) == url_host_of(input@),
        opt_segments_view(r.1) == url_segments_of(input@),
        opt_view(r.2) == url_query_of(input@),
{
    match url::Url::parse(input) {
        Ok(u) => (
            u.host_str().map(|h| h.to_string()),
            u.path_segments().map(|it| it.map(|x| x.to_string()).collect()),
            u.query().map(|q| q.to_string()),
        ),
        Err(_) => (None, None, None),
    }
}

/// Relies on `url::Url::parse`: the URL it reads from the text, or the
/// error for text it rejects. Text it rejects has no host, path segments or
/// query.
#[verifier::external_body]
fn parse_url(input: &str) -> (r: Result<url::Url, url::ParseError>)
    ensures
        r is Err ==> url_host_of(input@) is None && url_segments_of(input@) is None
            && url_query_of(input@) is None,
{
    url::Url::parse(input)
}

/// Segments joined by `/`.
pub open spec fn join_segments(v: Seq<Seq<char>>) -> Seq<char>
    decreases v.len(),
{
    if v.len() == 0 {
        Seq::empty()
    } else if v.len() == 1 {
        v[0]
    } else {
        join_segments(v.drop_last()) + "/"@ + v.last()
    }
}

pub open spec fn segments_view(v: Seq<String>) -> Seq<Seq<char>> {
    v.map_values(|x: String| x@)
}

/// The type a host and path give: on `github.com` the first two segments
/// are the owner and the repo and any further ones, joined by `/`, the
/// ref-or-rev; fewer than two segments are an error. Other hosts give no
/// type (the unset kind).
pub open spec fn spec_type_from_host(host: Seq<char>, segs: Option<Seq<Seq<char>>>) -> Result<
    TypeView,
    ErrorView,
> {
    if host == "github.com"@ {
        match segs {
            Some(v) => if v.len() < 2 {
                Err(ErrorView::Error("Error parsing from host: github.com"@))
            } else {
                Ok(
                    TypeView::GitForge(
                        GitForgeView {
                            platform: GitForgePlatform::GitHub,
                            owner: v[0],
                            repo: v[1],
                            ref_or_rev: if v.len() > 2 {
                                Some(join_segments(v.subrange(2, v.len() as int)))
                            } else {
                                None
                            },
                        },
                    ),
                )
            },
            None => Err(ErrorView::Error("Error parsing from host: github.com"@)),
        }
    } else {
        Ok(TypeView::Unset)
    }
}

/// The reference that a URL's host, path segments and query give: the type
/// of `spec_type_from_host`, and the parameters read from the query. A host
/// that gives no type gives no reference: `InvalidType` holding the host.
pub open spec fn spec_convert_parts(
    host: Seq<char>,
    segs: Option<Seq<Seq<char>>>,
    query: Option<Seq<char>>,
) -> Result<FlakeRefView, ErrorView> {
    match spec_type_from_host(host, segs) {
        Err(e) => Err(e),
        Ok(TypeView::Unset) => Err(ErrorView::InvalidType(host)),
        Ok(t) => Ok(
            FlakeRefView {
                kind: t,
                flake: None,
                params: match query {
                    Some(q) => spec_params(q, 0, empty_params()).0,
                    None => empty_params(),
                },
            },
        ),
    }
}

/// A web URL on a known forge host is read from its host, path and query;
/// any other text, and any archive name, is read as a flake reference.
pub open spec fn spec_convert_or_parse(s: Seq<char>) -> Result<FlakeRefView, ErrorView> {
    if !is_tarball_name(s) && url_host_of(s) == Some("github.com"@) {
        spec_convert_parts("github.com"@, url_segments_of(s), url_query_of(s))
    } else {
        spec_parse(s)
    }
}

/// The type that a URL's host gives, where it gives one.
pub open spec fn spec_infer_from_url(s: Seq<char>) -> Option<TypeView> {
    match url_host_of(s) {
        Some(h) => match spec_type_from_host(h, url_segments_of(s)) {
            Ok(t) => if t is Unset {
                None
            } else {
                Some(t)
            },
            Err(_) => None,
        },
        None => None,
    }
}

pub open spec fn opt_segments_view(o: Option<Vec<String>>) -> Option<Seq<Seq<char>>> {
    match o {
        Some(v) => Some(segments_view(v@)),
        None => None,
    }
}

pub open spec fn opt_query_view(o: Option<&str>) -> Option<Seq<char>> {
    match o {
        Some(q) => Some(q@),
        None => None,
    }
}

/// Joins `v[from..]` with `/`.
fn join_from(v: &Vec<String>, from: usize) -> (r: String)
    requires
        from < v@.len(),
    ensures
        r@ == join_segments(segments_view(v@).subrange(from as int, v@.len() as int)),
{
    let n = v.len();
    let mut out = String::from_str(v[from].as_str());
    let mut i = from + 1;
    proof {
        assert(segments_view(v@).subrange(from as int, i as int) =~= seq![v@[from as int]@]);
    }
    while i < n
        invariant
            n == v@.len(),
            from < i <= v@.len(),
            out@ == join_segments(segments_view(v@).subrange(from as int, i as int)),
        decreases v@.len() - i,
    {
        out.append("/");
        out.append(v[i].as_str());
        proof {
            reveal_strlit("/");
            let w = segments_view(v@).subrange(from as int, i + 1);
            assert(w.drop_last() =~= segments_view(v@).subrange(from as int, i as int));
            assert(out@ =~= join_segments(w));
        }
        i += 1;
    }
    out
}

/// Finds `spec_type_from_host`.
pub fn type_from_host(host: &str, segments: Option<Vec<String>>) -> (r: Result<
    FlakeRefType,
    NixUriError,
>)
    ensures
        match (r, spec_type_from_host(host@, opt_segments_view(segments))) {
            (Ok(t), Ok(st)) => t@ == st,
            (Err(e), Err(se)) => e@ == se,
            _ => false,
        },
{
    if !str_eq(host, "github.com") {
        return Ok(FlakeRefType::Unset);
    }
    match segments {
        Some(v) => {
            if v.len() < 2 {
                return Err(
                    NixUriError::Error(String::from_str("Error parsing from host: github.com")),
                );
            }
            let ref_or_rev = if v.len() > 2 {
                Some(join_from(&v, 2))
            } else {
                None
            };
            Ok(
                FlakeRefType::GitForge(
                    GitForge {
                        platform: GitForgePlatform::GitHub,
                        owner: String::from_str(v[0].as_str()),
                        repo: String::from_str(v[1].as_str()),
                        ref_or_rev,
                    },
                ),
            )
        },
        None => Err(NixUriError::Error(String::from_str("Error parsing from host: github.com"))),
    }
}

/// A URL with the choices for reading it as a reference.
pub struct UrlWrapper {
    pub url: url::Url,
    pub infer_type: bool,
    pub explicit_type: FlakeRefType,
}

impl UrlWrapper {
    /// Wraps a URL; its type is inferred by default.
    pub fn new(url: url::Url) -> (r: Self)
        ensures
            r.url == url,
            r.infer_type,
            r.explicit_type@ == TypeView::Unset,
    {
        UrlWrapper { url, infer_type: true, explicit_type: FlakeRefType::Unset }
    }

    /// Reads a web URL, to be wrapped with its type inferred. Text that the
    /// URL parser rejects is an error, and has no host.
    pub fn from_text(input: &str) -> (r: Result<Self, NixUriError>)
        ensures
            match r {
                Ok(w) => w.infer_type && w.explicit_type@ == TypeView::Unset,
                Err(e) => e@ == ErrorView::ServoUrl && url_host_of(input@) is None,
            },
    {
        match parse_url(input) {
            Ok(url) => Ok(UrlWrapper::new(url)),
            Err(e) => Err(NixUriError::ServoUrl(e)),
        }
    }

    pub fn infer_type(&mut self, infer_type: bool) -> (r: &mut Self)
        ensures
            r.infer_type == infer_type,
            r.explicit_type == old(self).explicit_type,
            r.url == old(self).url,
            *final(self) == *final(r),
    {
        self.infer_type = infer_type;
        self
    }

    pub fn explicit_type(&mut self, explicit_type: FlakeRefType) -> (r: &mut Self)
        ensures
            r.explicit_type == explicit_type,
            r.infer_type == old(self).infer_type,
            r.url == old(self).url,
            *final(self) == *final(r),
    {
        self.explicit_type = explicit_type;
        self
    }

    /// The reference that a URL's host, path segments and query give (see
    /// `spec_convert_parts`).
    pub fn convert_parts(host: &str, segments: Option<Vec<String>>, query: Option<&str>) -> (r:
        Result<FlakeRef, NixUriError>)
        ensures
            match (r, spec_convert_parts(host@, opt_segments_view(segments), opt_query_view(query))) {
                (Ok(f), Ok(sf)) => f@ == sf,
                (Err(e), Err(se)) => e@ == se,
                _ => false,
            },
    {
        let kind = type_from_host(host, segments)?;
        if let FlakeRefType::Unset = kind {
            return Err(NixUriError::InvalidType(String::from_str(host)));
        }
        let mut flake_ref = FlakeRef::new(kind);
        if let Some(q) = query {
            let n = q.unicode_len();
            let (params, _) = params_at(q, n, 0);
            flake_ref.params = params;
        }
        Ok(flake_ref)
    }

    /// Reads `input` as a web URL where the URL parser finds the host
    /// `github.com` in it, taking owner, repo and ref-or-rev from the path
    /// and parameters from the query (see `spec_convert_or_parse`). Archive
    /// names and all other text are read as flake references.
    pub fn convert_or_parse(input: &str) -> (r: Result<FlakeRef, NixUriError>)
        ensures
            match (r, spec_convert_or_parse(input@)) {
                (Ok(f), Ok(sf)) => f@ == sf,
                (Err(e), Err(se)) => e@ == se,
                _ => false,
            },
    {
        proof {
            reveal_strlit("github.com");
        }
        if is_tarball(input) {
            return parse_nix_uri(input);
        }
        let (host, segments, query) = url_parts(input);
        if let Some(h) = &host {
            if str_eq(h.as_str(), "github.com") {
                let q = match &query {
                    Some(x) => Some(x.as_str()),
                    None => None,
                };
                return UrlWrapper::convert_parts(h.as_str(), segments, q);
            }
        }
        parse_nix_uri(input)
    }
}

impl<'a> vstd::std_specs::convert::TryFromSpecImpl<&'a str> for UrlWrapper {
    open spec fn obeys_try_from_spec() -> bool {
        false
    }

    open spec fn try_from_spec(v: &'a str) -> Result<Self, NixUriError> {
        arbitrary()
    }
}

impl<'a> TryFrom<&'a str> for UrlWrapper {
    type Error = NixUriError;

    fn try_from(input: &'a str) -> Result<Self, Self::Error> {
        UrlWrapper::from_text(input)
    }
}

impl FlakeRef {
    /// The type that the host of the web URL `url` gives, where it gives one
    /// (see `spec_infer_from_url`).
    pub fn infer_from_url(url: &str) -> (r: Option<FlakeRefType>)
        ensures
            match (r, spec_infer_from_url(url@)) {
                (Some(t), Some(st)) => t@ == st,
                (None, None) => true,
                _ => false,
            },
    {
        let (host, segments, _) = url_parts(url);
        match host {
            Some(h) => match type_from_host(h.as_str(), segments) {
                Ok(FlakeRefType::Unset) => None,
                Ok(t) => Some(t),
                Err(_) => None,
            },
            None => None,
        }
    }
}

} // verus!
