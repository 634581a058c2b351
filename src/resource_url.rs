//! The generic resource form `<kind>[+<transport>]://<location>`.
use vstd::prelude::*;

use crate::error::{agrees, agrees_rest, ends_within, is_rest, ErrorView, NixUriError};
use crate::text::{char_at, scan, scan_exec, slice, starts_at, starts_with_at, text_between, Stop};
use crate::transport_layer::{spec_transport, transport_at, TransportLayer};

verus! {

/// What kind of resource a reference points at.
#[derive(Debug, Clone, Copy, PartialEq, Eq, Structural)]
pub enum ResourceType {
    Git,
    Mercurial,
    File,
    Tarball,
}

/// A resource: its kind, its location (host and path, not further parsed)
/// and the transport layer, absent for the protocol's own.
#[derive(Debug, Clone, PartialEq, Eq)]
pub struct ResourceUrl {
    pub res_type: ResourceType,
    pub location: String,
    pub transport_type: Option<TransportLayer>,
}

/// The characters that a resource holds.
pub struct ResourceView {
    pub res_type: ResourceType,
    pub location: Seq<char>,
    pub transport_type: Option<TransportLayer>,
}

impl View for ResourceUrl {
    type V = ResourceView;

    open spec fn view(&self) -> ResourceView {
        ResourceView {
            res_type: self.res_type,
            location: self.location@,
            transport_type: self.transport_type,
        }
    }
}

/// The resource kind tag at `i` and the position after it.
pub open spec fn spec_resource_type(s: Seq<char>, i: int) -> Option<(ResourceType, int)> {
    if starts_at(s, i, "git"@) {
        Some((ResourceType::Git, i + 3))
    } else if starts_at(s, i, "hg"@) {
        Some((ResourceType::Mercurial, i + 2))
    } else if starts_at(s, i, "file"@) {
        Some((ResourceType::File, i + 4))
    } else if starts_at(s, i, "tarball"@) {
        Some((ResourceType::Tarball, i + 7))
    } else {
        None
    }
}

/// The text of a resource kind tag.
pub open spec fn resource_text(k: ResourceType) -> Seq<char> {
    match k {
        ResourceType::Git => "git"@,
        ResourceType::Mercurial => "hg"@,
        ResourceType::File => "file"@,
        ResourceType::Tarball => "tarball"@,
    }
}

/// The separator `://` at `j`, then the location up to `?`, `#` or the end.
pub open spec fn spec_location(
    s: Seq<char>,
    j: int,
    k: ResourceType,
    t: Option<TransportLayer>,
) -> Result<(ResourceView, int), ErrorView> {
    if starts_at(s, j, "://"@) {
        let e = scan(s, j + 3, Stop::Query);
        Ok((ResourceView { res_type: k, location: s.subrange(j + 3, e), transport_type: t }, e))
    } else {
        Err(ErrorView::ParseError(s.subrange(j, s.len() as int)))
    }
}

/// A resource at `i`: kind tag, optional `+transport`, `://`, location.
pub open spec fn spec_resource(s: Seq<char>, i: int) -> Result<(ResourceView, int), ErrorView> {
    match spec_resource_type(s, i) {
        None => Err(ErrorView::ParseError(s.subrange(i, s.len() as int))),
        Some((k, j)) => if char_at(s, j, '+') {
            match spec_transport(s, j + 1) {
                None => Err(
                    ErrorView::UnknownTransportLayer(s.subrange(j + 1, scan(s, j + 1, Stop::Tag))),
                ),
                Some((t, j2)) => spec_location(s, j2, k, Some(t)),
            }
        } else {
            spec_location(s, j, k, None)
        },
    }
}

/// Finds `spec_resource_type(s@, i)`.
pub fn resource_type_at(s: &str, n: usize, i: usize) -> (r: Option<(ResourceType, usize)>)
    requires
        n == s@.len(),
        i <= n,
    ensures
        match (r, spec_resource_type(s@, i as int)) {
            (Some((k, j)), Some((sk, sj))) => k == sk && j == sj && j <= n,
            (None, None) => true,
            _ => false,
        },
{
    proof {
        reveal_strlit("git");
        reveal_strlit("hg");
        reveal_strlit("file");
        reveal_strlit("tarball");
    }
    if starts_with_at(s, n, i, "git") {
        Some((ResourceType::Git, i + 3))
    } else if starts_with_at(s, n, i, "hg") {
        Some((ResourceType::Mercurial, i + 2))
    } else if starts_with_at(s, n, i, "file") {
        Some((ResourceType::File, i + 4))
    } else if starts_with_at(s, n, i, "tarball") {
        Some((ResourceType::Tarball, i + 7))
    } else {
        None
    }
}

/// Finds `spec_location(s@, j, k, t)`.
pub fn location_at(s: &str, n: usize, j: usize, k: ResourceType, t: Option<TransportLayer>) -> (r:
    Result<(ResourceUrl, usize), NixUriError>)
    requires
        n == s@.len(),
        j <= n,
    ensures
        agrees(r, spec_location(s@, j as int, k, t)),
        ends_within(r, n),
{
    proof {
        reveal_strlit("://");
    }
    if starts_with_at(s, n, j, "://") {
        let e = scan_exec(s, n, j + 3, Stop::Query);
        Ok((ResourceUrl { res_type: k, location: slice(s, j + 3, e), transport_type: t }, e))
    } else {
        Err(NixUriError::ParseError(slice(s, j, n)))
    }
}

/// Finds `spec_resource(s@, i)`.
pub fn resource_at(s: &str, n: usize, i: usize) -> (r: Result<(ResourceUrl, usize), NixUriError>)
    requires
        n == s@.len(),
        i <= n,
    ensures
        agrees(r, spec_resource(s@, i as int)),
        ends_within(r, n),
{
    match resource_type_at(s, n, i) {
        None => Err(NixUriError::ParseError(slice(s, i, n))),
        Some((k, j)) => {
            if j < n && s.get_char(j) == '+' {
                match transport_at(s, n, j + 1) {
                    None => {
                        let e = scan_exec(s, n, j + 1, Stop::Tag);
                        Err(NixUriError::UnknownTransportLayer(slice(s, j + 1, e)))
                    },
                    Some((t, j2)) => location_at(s, n, j2, k, Some(t)),
                }
            } else {
                location_at(s, n, j, k, None)
            }
        },
    }
}

impl ResourceType {
    /// Reads a resource kind tag (`git`, `hg`, `file`, `tarball`) at the
    /// start of `input`.
    pub fn parse<'a>(input: &'a str) -> (r: Result<(&'a str, ResourceType), NixUriError>)
        ensures
            match (r, spec_resource_type(input@, 0)) {
                (Ok((rest, k)), Some((sk, j))) => k == sk && is_rest(rest, input@, j),
                (Err(e), None) => e@ == ErrorView::ParseError(input@),
                _ => false,
            },
    {
        let n = input.unicode_len();
        match resource_type_at(input, n, 0) {
            Some((k, j)) => Ok((text_between(input, j, n), k)),
            None => Err(NixUriError::ParseError(String::from_str(input))),
        }
    }

    /// The tag of the resource kind, as it stands in a reference.
    pub fn as_str(&self) -> (r: &'static str)
        ensures
            r@ == resource_text(*self),
    {
        match self {
            ResourceType::Git => "git",
            ResourceType::Mercurial => "hg",
            ResourceType::File => "file",
            ResourceType::Tarball => "tarball",
        }
    }

    /// The tag of the resource kind.
    pub fn to_string(&self) -> (r: String)
        ensures
            r@ == resource_text(*self),
    {
        String::from_str(self.as_str())
    }
}

impl ResourceUrl {
    /// Reads a resource at the start of `input`; the remainder starts at the
    /// `?` or `#` that ends the location, or is empty.
    pub fn parse<'a>(input: &'a str) -> (r: Result<(&'a str, ResourceUrl), NixUriError>)
        ensures
            agrees_rest(r, input@, spec_resource(input@, 0)),
    {
        let n = input.unicode_len();
        match resource_at(input, n, 0) {
            Ok((u, j)) => Ok((text_between(input, j, n), u)),
            Err(e) => Err(e),
        }
    }
}

} // verus!
