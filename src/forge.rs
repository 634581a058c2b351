//! The git-forge shorthand `<github|gitlab|sourcehut>:<owner>/<repo>[/<ref-or-rev>]`.
use vstd::prelude::*;

use crate::error::{agrees, agrees_rest, ends_within, is_rest, ErrorView, NixUriError};
use crate::text::{
    char_at, opt_str_view, opt_view, scan, scan_exec, starts_at, starts_with_at,
    text_between, Stop,
};

verus! {

/// The hosting platforms that have a shorthand.
#[derive(Debug, Clone, Copy, PartialEq, Eq, Structural)]
pub enum GitForgePlatform {
    GitHub,
    GitLab,
    SourceHut,
}

/// A repository on a forge. The ref-or-rev is a branch, a tag or a commit:
/// they cannot be told apart from the text.
#[derive(Debug, Clone, PartialEq, Eq)]
pub struct GitForge {
    pub platform: GitForgePlatform,
    pub owner: String,
    pub repo: String,
    pub ref_or_rev: Option<String>,
}

/// The characters that a forge reference holds.
pub struct GitForgeView {
    pub platform: GitForgePlatform,
    pub owner: Seq<char>,
    pub repo: Seq<char>,
    pub ref_or_rev: Option<Seq<char>>,
}

impl View for GitForge {
    type V = GitForgeView;

    open spec fn view(&self) -> GitForgeView {
        GitForgeView {
            platform: self.platform,
            owner: self.owner@,
            repo: self.repo@,
            ref_or_rev: opt_view(self.ref_or_rev),
        }
    }
}

/// The platform tag at `i` and the position after it.
pub open spec fn spec_platform(s: Seq<char>, i: int) -> Option<(GitForgePlatform, int)> {
    if starts_at(s, i, "github"@) {
        Some((GitForgePlatform::GitHub, i + 6))
    } else if starts_at(s, i, "gitlab"@) {
        Some((GitForgePlatform::GitLab, i + 6))
    } else if starts_at(s, i, "sourcehut"@) {
        Some((GitForgePlatform::SourceHut, i + 9))
    } else {
        None
    }
}

/// The text of a platform tag.
pub open spec fn platform_text(p: GitForgePlatform) -> Seq<char> {
    match p {
        GitForgePlatform::GitHub => "github"@,
        GitForgePlatform::GitLab => "gitlab"@,
        GitForgePlatform::SourceHut => "sourcehut"@,
    }
}

/// The spans of `owner/repo[/ref-or-rev]` at `i`: the end of the owner, the
/// end of the repo and the end of the whole. A ref-or-rev stands in
/// `[repo_end + 1, end)` where that is not empty. The error names the
/// missing component.
pub open spec fn spec_forge_span(s: Seq<char>, i: int) -> Result<(int, int, int), Seq<char>> {
    let oe = scan(s, i, Stop::Segment);
    let re = scan(s, oe + 1, Stop::Segment);
    if oe == i {
        Err("owner"@)
    } else if !char_at(s, oe, '/') || re == oe + 1 {
        Err("repo"@)
    } else if char_at(s, re, '/') {
        Ok((oe, re, scan(s, re + 1, Stop::Query)))
    } else {
        Ok((oe, re, re))
    }
}

/// The ref-or-rev of a span: absent where nothing follows the repo.
pub open spec fn span_ref(s: Seq<char>, re: int, e: int) -> Option<Seq<char>> {
    if e - re > 1 {
        Some(s.subrange(re + 1, e))
    } else {
        None
    }
}

/// The forge shorthand at `i`: platform tag, `:`, owner, repo, ref-or-rev.
/// Once the tag and its `:` are read, a missing owner or repo is an error
/// that names the platform.
pub open spec fn spec_forge(s: Seq<char>, i: int) -> Result<(GitForgeView, int), ErrorView> {
    match spec_platform(s, i) {
        None => Err(ErrorView::ParseError(s.subrange(i, s.len() as int))),
        Some((p, j)) => if !char_at(s, j, ':') {
            Err(ErrorView::ParseError(s.subrange(j, s.len() as int)))
        } else {
            match spec_forge_span(s, j + 1) {
                Err(what) => Err(ErrorView::MissingTypeParameter(platform_text(p), what)),
                Ok((oe, re, e)) => Ok(
                    (
                        GitForgeView {
                            platform: p,
                            owner: s.subrange(j + 1, oe),
                            repo: s.subrange(oe + 1, re),
                            ref_or_rev: span_ref(s, re, e),
                        },
                        e,
                    ),
                ),
            }
        },
    }
}

/// Finds `spec_platform(s@, i)`.
pub fn platform_at(s: &str, n: usize, i: usize) -> (r: Option<(GitForgePlatform, usize)>)
    requires
        n == s@.len(),
        i <= n,
    ensures
        match (r, spec_platform(s@, i as int)) {
            (Some((p, j)), Some((sp, sj))) => p == sp && j == sj && j <= n,
            (None, None) => true,
            _ => false,
        },
{
    proof {
        reveal_strlit("github");
        reveal_strlit("gitlab");
        reveal_strlit("sourcehut");
    }
    if starts_with_at(s, n, i, "github") {
        Some((GitForgePlatform::GitHub, i + 6))
    } else if starts_with_at(s, n, i, "gitlab") {
        Some((GitForgePlatform::GitLab, i + 6))
    } else if starts_with_at(s, n, i, "sourcehut") {
        Some((GitForgePlatform::SourceHut, i + 9))
    } else {
        None
    }
}

/// Finds `spec_forge_span(s@, i)`; the error tells whether the owner (true)
/// or the repo (false) is missing.
pub fn forge_span_at(s: &str, n: usize, i: usize) -> (r: Result<(usize, usize, usize), bool>)
    requires
        n == s@.len(),
        i <= n,
    ensures
        match (r, spec_forge_span(s@, i as int)) {
            (Ok((oe, re, e)), Ok((soe, sre, se))) => oe == soe && re == sre && e == se && i < oe
                < re && re <= e <= n,
            (Err(owner), Err(what)) => what == (if owner {
                "owner"@
            } else {
                "repo"@
            }),
            _ => false,
        },
{
    let oe = scan_exec(s, n, i, Stop::Segment);
    if oe == i {
        return Err(true);
    }
    if !(oe < n && s.get_char(oe) == '/') {
        return Err(false);
    }
    let re = scan_exec(s, n, oe + 1, Stop::Segment);
    if re == oe + 1 {
        return Err(false);
    }
    if re < n && s.get_char(re) == '/' {
        let e = scan_exec(s, n, re + 1, Stop::Query);
        Ok((oe, re, e))
    } else {
        Ok((oe, re, re))
    }
}

/// Finds `spec_forge(s@, i)`.
pub fn forge_at(s: &str, n: usize, i: usize) -> (r: Result<(GitForge, usize), NixUriError>)
    requires
        n == s@.len(),
        i <= n,
    ensures
        agrees(r, spec_forge(s@, i as int)),
        ends_within(r, n),
{
    match platform_at(s, n, i) {
        None => Err(NixUriError::ParseError(crate::text::slice(s, i, n))),
        Some((p, j)) => {
            if !(j < n && s.get_char(j) == ':') {
                return Err(NixUriError::ParseError(crate::text::slice(s, j, n)));
            }
            match forge_span_at(s, n, j + 1) {
                Err(owner) => Err(
                    NixUriError::MissingTypeParameter(
                        p.to_string(),
                        String::from_str(
                            if owner {
                                "owner"
                            } else {
                                "repo"
                            },
                        ),
                    ),
                ),
                Ok((oe, re, e)) => {
                    let ref_or_rev = if e - re > 1 {
                        Some(crate::text::slice(s, re + 1, e))
                    } else {
                        None
                    };
                    Ok(
                        (
                            GitForge {
                                platform: p,
                                owner: crate::text::slice(s, j + 1, oe),
                                repo: crate::text::slice(s, oe + 1, re),
                                ref_or_rev,
                            },
                            e,
                        ),
                    )
                },
            }
        },
    }
}

impl GitForgePlatform {
    /// Reads a platform tag at the start of `input`, leaving the `:` that
    /// follows it.
    pub fn parse<'a>(input: &'a str) -> (r: Result<(&'a str, GitForgePlatform), NixUriError>)
        ensures
            match (r, spec_platform(input@, 0)) {
                (Ok((rest, p)), Some((sp, j))) => p == sp && is_rest(rest, input@, j),
                (Err(e), None) => e@ == ErrorView::ParseError(input@),
                _ => false,
            },
    {
        let n = input.unicode_len();
        match platform_at(input, n, 0) {
            Some((p, j)) => Ok((text_between(input, j, n), p)),
            None => Err(NixUriError::ParseError(String::from_str(input))),
        }
    }

    /// Reads a platform tag and the `:` after it.
    pub fn parse_terminated<'a>(input: &'a str) -> (r: Result<
        (&'a str, GitForgePlatform),
        NixUriError,
    >)
        ensures
            match (r, spec_platform(input@, 0)) {
                (Ok((rest, p)), Some((sp, j))) => p == sp && char_at(input@, j, ':') && is_rest(
                    rest,
                    input@,
                    j + 1,
                ),
                (Err(e), Some((sp, j))) => !char_at(input@, j, ':') && e@ == ErrorView::ParseError(
                    input@.subrange(j, input@.len() as int),
                ),
                (Err(e), None) => e@ == ErrorView::ParseError(input@),
                _ => false,
            },
    {
        let n = input.unicode_len();
        match platform_at(input, n, 0) {
            Some((p, j)) => {
                if j < n && input.get_char(j) == ':' {
                    Ok((text_between(input, j + 1, n), p))
                } else {
                    Err(NixUriError::ParseError(crate::text::slice(input, j, n)))
                }
            },
            None => Err(NixUriError::ParseError(String::from_str(input))),
        }
    }

    /// The tag of the platform, as it stands in a reference.
    pub fn as_str(&self) -> (r: &'static str)
        ensures
            r@ == platform_text(*self),
    {
        match self {
            GitForgePlatform::GitHub => "github",
            GitForgePlatform::GitLab => "gitlab",
            GitForgePlatform::SourceHut => "sourcehut",
        }
    }

    /// The tag of the platform.
    pub fn to_string(&self) -> (r: String)
        ensures
            r@ == platform_text(*self),
    {
        String::from_str(self.as_str())
    }
}

impl GitForge {
    /// Reads `owner/repo[/ref-or-rev]` at the start of `input`. The owner and
    /// the repo end at `/`, `?`, `#` or the end and must not be empty; a
    /// trailing `/` with nothing after it gives no ref-or-rev. The remainder
    /// starts at the `?` or `#` that ends the text, or is empty.
    pub fn parse_owner_repo_ref<'a>(input: &'a str) -> (r: Result<
        (&'a str, (&'a str, &'a str, Option<&'a str>)),
        NixUriError,
    >)
        ensures
            match (r, spec_forge_span(input@, 0)) {
                (Ok((rest, (owner, repo, rr))), Ok((oe, re, e))) => owner@ == input@.subrange(0, oe)
                    && repo@ == input@.subrange(oe + 1, re) && opt_str_view(rr) == span_ref(
                    input@,
                    re,
                    e,
                ) && is_rest(rest, input@, e),
                (Err(err), Err(what)) => err@ == ErrorView::MissingTypeParameter(
                    "git forge"@,
                    what,
                ),
                _ => false,
            },
    {
        let n = input.unicode_len();
        match forge_span_at(input, n, 0) {
            Err(owner) => Err(
                NixUriError::MissingTypeParameter(
                    String::from_str("git forge"),
                    String::from_str(
                        if owner {
                            "owner"
                        } else {
                            "repo"
                        },
                    ),
                ),
            ),
            Ok((oe, re, e)) => {
                let rr = if e - re > 1 {
                    Some(text_between(input, re + 1, e))
                } else {
                    None
                };
                Ok(
                    (
                        text_between(input, e, n),
                        (text_between(input, 0, oe), text_between(input, oe + 1, re), rr),
                    ),
                )
            },
        }
    }

    /// Reads a whole forge shorthand at the start of `input`.
    pub fn parse<'a>(input: &'a str) -> (r: Result<(&'a str, GitForge), NixUriError>)
        ensures
            agrees_rest(r, input@, spec_forge(input@, 0)),
    {
        let n = input.unicode_len();
        match forge_at(input, n, 0) {
            Ok((g, j)) => Ok((text_between(input, j, n), g)),
            Err(e) => Err(e),
        }
    }
}

} // verus!
