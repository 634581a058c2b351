//! The top-level entry: sanitation of the whole input, then the grammar.
use vstd::prelude::*;

use crate::error::{ErrorView, NixUriError};
use crate::flakeref::{flake_ref_at, spec_flake_ref, FlakeRef, FlakeRefView};
use crate::text::{ends_with, ends_with_exec};

verus! {

/// The location ends with an archive extension (lower case only).
pub open spec fn is_tarball_name(s: Seq<char>) -> bool {
    ends_with(s, ".tar"@) || ends_with(s, ".tar.gz"@) || ends_with(s, ".tgz"@) || ends_with(
        s,
        ".tar.bz2"@,
    ) || ends_with(s, ".tar.xz"@) || ends_with(s, ".tar.zst"@) || ends_with(s, ".zip"@)
}

/// Whether `input` names an archive: it ends with `.tar`, `.tar.gz`,
/// `.tgz`, `.tar.bz2`, `.tar.xz`, `.tar.zst` or `.zip`. Bare compression
/// suffixes (`.gz`, `.xz`) and upper-case ones are not archives.
pub fn is_tarball(input: &str) -> (r: bool)
    ensures
        r == is_tarball_name(input@),
{
    ends_with_exec(input, ".tar") || ends_with_exec(input, ".tar.gz") || ends_with_exec(
        input,
        ".tgz",
    ) || ends_with_exec(input, ".tar.bz2") || ends_with_exec(input, ".tar.xz") || ends_with_exec(
        input,
        ".tar.zst",
    ) || ends_with_exec(input, ".zip")
}

/// Whether `input` names a plain file, that is, no archive.
pub fn is_file(input: &str) -> (r: bool)
    ensures
        r == !is_tarball_name(input@),
{
    !is_tarball(input)
}

/// A printable ASCII character: neither a control character nor outside
/// ASCII.
pub open spec fn is_printable(c: char) -> bool {
    ' ' <= c && c <= '~'
}

/// The checks on a whole input before any grammar: not empty, not a lone
/// `/`, `:` or `?`, printable ASCII only, and no space at either end.
pub open spec fn sanitary(s: Seq<char>) -> bool {
    &&& s.len() > 0
    &&& !(s.len() == 1 && (s[0] == '/' || s[0] == ':' || s[0] == '?'))
    &&& forall|k: int| 0 <= k < s.len() ==> is_printable(#[trigger] s[k])
    &&& s[0] != ' '
    &&& s[s.len() - 1] != ' '
}

/// A whole reference: sanitation, then the reference at the start. What
/// follows the reference (an attribute path after `#`) is not part of it.
pub open spec fn spec_parse(s: Seq<char>) -> Result<FlakeRefView, ErrorView> {
    if !sanitary(s) {
        Err(ErrorView::InvalidUrl(s))
    } else {
        match spec_flake_ref(s, 0) {
            Ok((f, _)) => Ok(f),
            Err(e) => Err(e),
        }
    }
}

/// Decides `sanitary(s@)`.
pub fn is_sanitary(s: &str) -> (r: bool)
    ensures
        r == sanitary(s@),
{
    let n = s.unicode_len();
    if n == 0 {
        return false;
    }
    let first = s.get_char(0);
    if n == 1 && (first == '/' || first == ':' || first == '?') {
        return false;
    }
    let mut k: usize = 0;
    while k < n
        invariant
            n == s@.len(),
            k <= n,
            forall|j: int| 0 <= j < k ==> is_printable(#[trigger] s@[j]),
        decreases n - k,
    {
        let c = s.get_char(k);
        if !(' ' <= c && c <= '~') {
            return false;
        }
        k += 1;
    }
    first != ' ' && s.get_char(n - 1) != ' '
}

/// Parses a whole reference (see `spec_parse`). Input that fails the
/// sanitation checks is rejected as `InvalidUrl` holding the whole input.
pub fn parse_nix_uri(input: &str) -> (r: Result<FlakeRef, NixUriError>)
    ensures
        match (r, spec_parse(input@)) {
            (Ok(f), Ok(sf)) => f@ == sf,
            (Err(e), Err(se)) => e@ == se,
            _ => false,
        },
{
    if !is_sanitary(input) {
        return Err(NixUriError::InvalidUrl(String::from_str(input)));
    }
    let n = input.unicode_len();
    match flake_ref_at(input, n, 0) {
        Ok((f, _)) => Ok(f),
        Err(e) => Err(e),
    }
}

} // verus!
