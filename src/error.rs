//! The error type of the crate.
use vstd::prelude::*;

verus! {

/// The error type of `url::Url::parse`, carried as it is in
/// `NixUriError::ServoUrl`; nothing is assumed of its values.
#[verifier::external_type_specification]
#[verifier::external_body]
pub struct ExUrlParseError(url::ParseError);

/// Why a reference could not be parsed or changed.
#[derive(Debug, PartialEq)]
#[non_exhaustive]
pub enum NixUriError {
    /// Generic error.
    Error(String),
    /// Generic parsing failure: the text at which the grammar expected
    /// something else.
    ParseError(String),
    /// Input rejected as a whole (the sanitation checks, a malformed
    /// registry id).
    InvalidUrl(String),
    /// A path that neither is absolute nor starts with `.`.
    NotAbsolute(String),
    /// A path holding `[`, `]` or a non-ASCII character.
    PathCharacter(String),
    /// A forge type without its owner or repo: the type, then the component.
    MissingTypeParameter(String, String),
    /// An unknown type tag before the first `:`, such as `svn`.
    UnknownUriType(String),
    /// An unknown transport layer after a `+`, such as `git+ftp`.
    UnknownTransportLayer(String),
    /// Invalid reference type.
    InvalidType(String),
    /// A parameter that the reference type does not support.
    UnsupportedParam(String),
    /// A field that only some reference types have: the field, then the
    /// types that have it.
    UnsupportedByType(String, String),
    /// An invalid parameter.
    UnknownUriParameter(String),
    /// The URL parser rejected the input.
    ServoUrl(url::ParseError),
}

/// The characters that an error carries.
pub enum ErrorView {
    Error(Seq<char>),
    ParseError(Seq<char>),
    InvalidUrl(Seq<char>),
    NotAbsolute(Seq<char>),
    PathCharacter(Seq<char>),
    MissingTypeParameter(Seq<char>, Seq<char>),
    UnknownUriType(Seq<char>),
    UnknownTransportLayer(Seq<char>),
    InvalidType(Seq<char>),
    UnsupportedParam(Seq<char>),
    UnsupportedByType(Seq<char>, Seq<char>),
    UnknownUriParameter(Seq<char>),
    ServoUrl,
}

impl View for NixUriError {
    type V = ErrorView;

    open spec fn view(&self) -> ErrorView {
        match self {
            NixUriError::Error(a) => ErrorView::Error(a@),
            NixUriError::ParseError(a) => ErrorView::ParseError(a@),
            NixUriError::InvalidUrl(a) => ErrorView::InvalidUrl(a@),
            NixUriError::NotAbsolute(a) => ErrorView::NotAbsolute(a@),
            NixUriError::PathCharacter(a) => ErrorView::PathCharacter(a@),
            NixUriError::MissingTypeParameter(a, b) => ErrorView::MissingTypeParameter(a@, b@),
            NixUriError::UnknownUriType(a) => ErrorView::UnknownUriType(a@),
            NixUriError::UnknownTransportLayer(a) => ErrorView::UnknownTransportLayer(a@),
            NixUriError::InvalidType(a) => ErrorView::InvalidType(a@),
            NixUriError::UnsupportedParam(a) => ErrorView::UnsupportedParam(a@),
            NixUriError::UnsupportedByType(a, b) => ErrorView::UnsupportedByType(a@, b@),
            NixUriError::UnknownUriParameter(a) => ErrorView::UnknownUriParameter(a@),
            NixUriError::ServoUrl(_) => ErrorView::ServoUrl,
        }
    }
}

/// The result type of the crate.
pub type NixUriResult<T> = Result<T, NixUriError>;

/// A borrowed remainder of the input is the suffix of `s` from `j` on.
pub open spec fn is_rest(rest: &str, s: Seq<char>, j: int) -> bool {
    rest@ == s.subrange(j, s.len() as int)
}

/// An exec result with its end position agrees with a spec result.
pub open spec fn agrees<T: View>(
    r: Result<(T, usize), NixUriError>,
    m: Result<(T::V, int), ErrorView>,
) -> bool {
    match (r, m) {
        (Ok((v, j)), Ok((sv, sj))) => v@ == sv && j == sj,
        (Err(e), Err(se)) => e@ == se,
        _ => false,
    }
}

/// A successful exec result ends within the input.
pub open spec fn ends_within<T>(r: Result<(T, usize), NixUriError>, n: usize) -> bool {
    match r {
        Ok((_, j)) => j <= n,
        Err(_) => true,
    }
}

/// An exec result with its borrowed remainder agrees with a spec result on
/// the input `s`.
pub open spec fn agrees_rest<T: View>(
    r: Result<(&str, T), NixUriError>,
    s: Seq<char>,
    m: Result<(T::V, int), ErrorView>,
) -> bool {
    match (r, m) {
        (Ok((rest, v)), Ok((sv, j))) => v@ == sv && is_rest(rest, s, j),
        (Err(e), Err(se)) => e@ == se,
        _ => false,
    }
}

} // verus!
