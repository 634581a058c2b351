//! The `+<layer>` component of a resource, as in `git+https://`.
use vstd::prelude::*;

use crate::error::{is_rest, ErrorView, NixUriError};
use crate::text::{char_at, starts_at, starts_with_at, str_eq, text_between};

verus! {

/// How a resource is fetched.
#[derive(Debug, Clone, Copy, PartialEq, Eq, Structural)]
pub enum TransportLayer {
    Http,
    Https,
    Ssh,
    File,
}

/// The transport tag at `i` and the position after it. `https` is tried
/// before `http`, so the longer tag wins.
pub open spec fn spec_transport(s: Seq<char>, i: int) -> Option<(TransportLayer, int)> {
    if starts_at(s, i, "https"@) {
        Some((TransportLayer::Https, i + 5))
    } else if starts_at(s, i, "http"@) {
        Some((TransportLayer::Http, i + 4))
    } else if starts_at(s, i, "ssh"@) {
        Some((TransportLayer::Ssh, i + 3))
    } else if starts_at(s, i, "file"@) {
        Some((TransportLayer::File, i + 4))
    } else {
        None
    }
}

/// The text of a transport tag.
pub open spec fn transport_text(t: TransportLayer) -> Seq<char> {
    match t {
        TransportLayer::Http => "http"@,
        TransportLayer::Https => "https"@,
        TransportLayer::Ssh => "ssh"@,
        TransportLayer::File => "file"@,
    }
}

/// Finds `spec_transport(s@, i)`.
pub fn transport_at(s: &str, n: usize, i: usize) -> (r: Option<(TransportLayer, usize)>)
    requires
        n == s@.len(),
        i <= n,
    ensures
        match (r, spec_transport(s@, i as int)) {
            (Some((t, j)), Some((st, sj))) => t == st && j == sj && j <= n,
            (None, None) => true,
            _ => false,
        },
{
    proof {
        reveal_strlit("https");
        reveal_strlit("http");
        reveal_strlit("ssh");
        reveal_strlit("file");
    }
    if starts_with_at(s, n, i, "https") {
        Some((TransportLayer::Https, i + 5))
    } else if starts_with_at(s, n, i, "http") {
        Some((TransportLayer::Http, i + 4))
    } else if starts_with_at(s, n, i, "ssh") {
        Some((TransportLayer::Ssh, i + 3))
    } else if starts_with_at(s, n, i, "file") {
        Some((TransportLayer::File, i + 4))
    } else {
        None
    }
}

impl TransportLayer {
    /// Reads a transport tag at the start of `input`; the remainder follows
    /// it. Fails without consuming where no tag stands there.
    pub fn parse<'a>(input: &'a str) -> (r: Result<(&'a str, TransportLayer), NixUriError>)
        ensures
            match (r, spec_transport(input@, 0)) {
                (Ok((rest, t)), Some((st, j))) => t == st && is_rest(rest, input@, j),
                (Err(e), None) => e@ == ErrorView::ParseError(input@),
                _ => false,
            },
    {
        let n = input.unicode_len();
        match transport_at(input, n, 0) {
            Some((t, j)) => Ok((text_between(input, j, n), t)),
            None => Err(NixUriError::ParseError(String::from_str(input))),
        }
    }

    /// Reads `+` and a transport tag at the start of `input`.
    pub fn plus_parse<'a>(input: &'a str) -> (r: Result<(&'a str, TransportLayer), NixUriError>)
        ensures
            match r {
                Ok((rest, t)) => char_at(input@, 0, '+') && spec_transport(input@, 1) == Some(
                    (t, input@.len() - rest@.len()),
                ) && is_rest(rest, input@, input@.len() - rest@.len()),
                Err(e) => e@ == ErrorView::ParseError(input@) && !(char_at(input@, 0, '+')
                    && spec_transport(input@, 1) is Some),
            },
    {
        let n = input.unicode_len();
        if n == 0 || input.get_char(0) != '+' {
            return Err(NixUriError::ParseError(String::from_str(input)));
        }
        match transport_at(input, n, 1) {
            Some((t, j)) => Ok((text_between(input, j, n), t)),
            None => Err(NixUriError::ParseError(String::from_str(input))),
        }
    }

    /// The transport layer whose tag is exactly `tag`.
    pub fn from_tag(tag: &str) -> (r: Result<TransportLayer, NixUriError>)
        ensures
            match r {
                Ok(t) => tag@ == transport_text(t),
                Err(e) => e@ == ErrorView::UnknownTransportLayer(tag@) && forall|t: TransportLayer|
                    tag@ != #[trigger] transport_text(t),
            },
    {
        if str_eq(tag, "http") {
            Ok(TransportLayer::Http)
        } else if str_eq(tag, "https") {
            Ok(TransportLayer::Https)
        } else if str_eq(tag, "ssh") {
            Ok(TransportLayer::Ssh)
        } else if str_eq(tag, "file") {
            Ok(TransportLayer::File)
        } else {
            Err(NixUriError::UnknownTransportLayer(String::from_str(tag)))
        }
    }

    /// The tag of the transport layer, as it stands in a reference.
    pub fn as_str(&self) -> (r: &'static str)
        ensures
            r@ == transport_text(*self),
    {
        match self {
            TransportLayer::Http => "http",
            TransportLayer::Https => "https",
            TransportLayer::Ssh => "ssh",
            TransportLayer::File => "file",
        }
    }

    /// The tag of the transport layer.
    pub fn to_string(&self) -> (r: String)
        ensures
            r@ == transport_text(*self),
    {
        String::from_str(self.as_str())
    }
}

impl<'a> vstd::std_specs::convert::TryFromSpecImpl<&'a str> for TransportLayer {
    open spec fn obeys_try_from_spec() -> bool {
        false
    }

    open spec fn try_from_spec(v: &'a str) -> Result<Self, NixUriError> {
        arbitrary()
    }
}

impl<'a> TryFrom<&'a str> for TransportLayer {
    type Error = NixUriError;

    fn try_from(value: &'a str) -> Result<Self, Self::Error> {
        TransportLayer::from_tag(value)
    }
}

} // verus!
