//! The top-level reference: a kind and its parameters.
use vstd::prelude::*;

use crate::error::{ErrorView, NixUriError};
use crate::fr_type::{dispatch_at, render_type, spec_dispatch, FlakeRefType, TypeView};
use crate::location_params::{
    empty_params, params_at, render_params, spec_params, LocationParameters, ParamsView,
};
use crate::parser::{parse_nix_uri, spec_parse};
use crate::text::{char_at, opt_view, text_between};

verus! {

/// A flake reference.
#[derive(Debug, Clone, PartialEq, Eq)]
pub struct FlakeRef {
    pub kind: FlakeRefType,
    /// A legacy marker; no parse sets it.
    pub flake: Option<bool>,
    pub params: LocationParameters,
}

/// The characters that a reference holds.
pub struct FlakeRefView {
    pub kind: TypeView,
    pub flake: Option<bool>,
    pub params: ParamsView,
}

impl View for FlakeRef {
    type V = FlakeRefView;

    open spec fn view(&self) -> FlakeRefView {
        FlakeRefView { kind: self.kind@, flake: self.flake, params: self.params@ }
    }
}

/// A reference at `i`: its type, then parameters after a `?`. The
/// position where reading stopped comes back with it; what follows there
/// (typically `#` and an attribute path) is left to the caller.
pub open spec fn spec_flake_ref(s: Seq<char>, i: int) -> Result<(FlakeRefView, int), ErrorView> {
    match spec_dispatch(s, i) {
        Err(e) => Err(e),
        Ok((t, j)) => if char_at(s, j, '?') {
            let (p, k) = spec_params(s, j + 1, empty_params());
            Ok((FlakeRefView { kind: t, flake: None, params: p }, k))
        } else {
            Ok((FlakeRefView { kind: t, flake: None, params: empty_params() }, j))
        },
    }
}

/// The canonical text of a reference: its type, then `?` and the
/// parameters where there are any.
pub open spec fn render(f: FlakeRefView) -> Seq<char> {
    if render_params(f.params).len() == 0 {
        render_type(f.kind)
    } else {
        render_type(f.kind) + "?"@ + render_params(f.params)
    }
}

/// Finds `spec_flake_ref(s@, i)`.
pub fn flake_ref_at(s: &str, n: usize, i: usize) -> (r: Result<(FlakeRef, usize), NixUriError>)
    requires
        n == s@.len(),
        i <= n,
    ensures
        match (r, spec_flake_ref(s@, i as int)) {
            (Ok((f, j)), Ok((sf, sj))) => f@ == sf && j == sj && j <= n,
            (Err(e), Err(se)) => e@ == se,
            _ => false,
        },
{
    match dispatch_at(s, n, i) {
        Err(e) => Err(e),
        Ok((t, j)) => {
            if j < n && s.get_char(j) == '?' {
                let (p, k) = params_at(s, n, j + 1);
                Ok((FlakeRef { kind: t, flake: None, params: p }, k))
            } else {
                Ok((FlakeRef { kind: t, flake: None, params: LocationParameters::new() }, j))
            }
        },
    }
}

impl Default for FlakeRef {
    fn default() -> (r: Self)
        ensures
            r@ == (FlakeRefView { kind: TypeView::Unset, flake: None, params: empty_params() }),
    {
        FlakeRef { kind: FlakeRefType::Unset, flake: None, params: LocationParameters::new() }
    }
}

impl FlakeRef {
    /// A reference of the given kind, without parameters.
    pub fn new(kind: FlakeRefType) -> (r: Self)
        ensures
            r@ == (FlakeRefView { kind: kind@, flake: None, params: empty_params() }),
    {
        FlakeRef { kind, flake: None, params: LocationParameters::new() }
    }

    /// Parses a whole reference, as `parse_nix_uri` does.
    pub fn from(input: &str) -> (r: Result<Self, NixUriError>)
        ensures
            match (r, spec_parse(input@)) {
                (Ok(f), Ok(sf)) => f@ == sf,
                (Err(e), Err(se)) => e@ == se,
                _ => false,
            },
    {
        parse_nix_uri(input)
    }

    /// Sets the kind.
    pub fn kind(&mut self, kind: FlakeRefType) -> (r: &mut Self)
        ensures
            r@ == (FlakeRefView { kind: kind@, ..old(self)@ }),
            *final(self) == *final(r),
    {
        self.kind = kind;
        self
    }

    /// The repo of a forge reference; other kinds have none.
    pub fn id(&self) -> (r: Option<String>)
        ensures
            opt_view(r) == match self@.kind {
                TypeView::GitForge(g) => Some(g.repo),
                _ => None,
            },
    {
        self.kind.get_id()
    }

    /// Sets the parameters.
    pub fn params(&mut self, params: LocationParameters) -> (r: &mut Self)
        ensures
            r@ == (FlakeRefView { params: params@, ..old(self)@ }),
            *final(self) == *final(r),
    {
        self.params = params;
        self
    }

    /// Reads a reference at the start of `input` and advances `input` past
    /// it (see `spec_flake_ref`); a trailing `#` and attribute path stay in
    /// `input`. The input is not sanitised first.
    pub fn parse(input: &mut &str) -> (r: Result<Self, NixUriError>)
        ensures
            match (r, spec_flake_ref(old(input)@, 0)) {
                (Ok(f), Ok((sf, j))) => f@ == sf && (*final(input))@ == old(input)@.subrange(
                    j,
                    old(input)@.len() as int,
                ),
                (Err(e), Err(se)) => e@ == se && *final(input) == *old(input),
                _ => false,
            },
    {
        let n = input.unicode_len();
        match flake_ref_at(input, n, 0) {
            Ok((f, j)) => {
                *input = text_between(input, j, n);
                Ok(f)
            },
            Err(e) => Err(e),
        }
    }

    /// The canonical text of the reference (`render`).
    pub fn to_string(&self) -> (r: String)
        ensures
            r@ == render(self@),
    {
        let mut out = self.kind.to_string();
        let params = self.params.to_string();
        if params.unicode_len() > 0 {
            out.append("?");
            out.append(params.as_str());
            proof {
                reveal_strlit("?");
                assert(out@ =~= render(self@));
            }
        }
        out
    }
}

impl std::str::FromStr for FlakeRef {
    type Err = NixUriError;

    fn from_str(s: &str) -> Result<Self, Self::Err> {
        parse_nix_uri(s)
    }
}

impl<'a> vstd::std_specs::convert::TryFromSpecImpl<&'a str> for FlakeRef {
    open spec fn obeys_try_from_spec() -> bool {
        false
    }

    open spec fn try_from_spec(v: &'a str) -> Result<Self, NixUriError> {
        arbitrary()
    }
}

impl<'a> TryFrom<&'a str> for FlakeRef {
    type Error = NixUriError;

    fn try_from(value: &'a str) -> Result<Self, Self::Error> {
        parse_nix_uri(value)
    }
}

} // verus!
