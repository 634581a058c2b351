//! The query parameters of a reference: `?key=value[&key=value...]`.
use vstd::prelude::*;

use crate::error::{ErrorView, NixUriError};
use crate::text::{char_at, opt_view, scan, scan_exec, slice, str_eq, text_between, Stop};

verus! {

/// The parameters of a reference. Each known key has its own field; other
/// keys are kept, in the order they came, as `(key, value)` pairs. Values
/// are kept as they are written, without percent-decoding.
#[derive(Debug, Clone, PartialEq, Eq)]
pub struct LocationParameters {
    /// The subdirectory of the flake in which `flake.nix` is located.
    pub dir: Option<String>,
    /// The hash of the NAR serialisation (in SRI format) of the contents.
    pub nar_hash: Option<String>,
    /// A Git or Mercurial commit hash.
    pub rev: Option<String>,
    /// A Git or Mercurial branch or tag name.
    pub git_ref: Option<String>,
    pub branch: Option<String>,
    pub submodules: Option<String>,
    pub shallow: Option<String>,
    /// Only available to certain types.
    pub host: Option<String>,
    /// Set by tools, never read from the text.
    pub rev_count: Option<String>,
    /// Set by tools, never read from the text.
    pub last_modified: Option<String>,
    /// Parameters with keys outside the known ones.
    pub arbitrary: Vec<(String, String)>,
}

/// The characters that a parameter record holds.
pub struct ParamsView {
    pub dir: Option<Seq<char>>,
    pub nar_hash: Option<Seq<char>>,
    pub rev: Option<Seq<char>>,
    pub git_ref: Option<Seq<char>>,
    pub branch: Option<Seq<char>>,
    pub submodules: Option<Seq<char>>,
    pub shallow: Option<Seq<char>>,
    pub host: Option<Seq<char>>,
    pub rev_count: Option<Seq<char>>,
    pub last_modified: Option<Seq<char>>,
    pub arbitrary: Seq<(Seq<char>, Seq<char>)>,
}

pub open spec fn pair_view(p: (String, String)) -> (Seq<char>, Seq<char>) {
    (p.0@, p.1@)
}

impl View for LocationParameters {
    type V = ParamsView;

    open spec fn view(&self) -> ParamsView {
        ParamsView {
            dir: opt_view(self.dir),
            nar_hash: opt_view(self.nar_hash),
            rev: opt_view(self.rev),
            git_ref: opt_view(self.git_ref),
            branch: opt_view(self.branch),
            submodules: opt_view(self.submodules),
            shallow: opt_view(self.shallow),
            host: opt_view(self.host),
            rev_count: opt_view(self.rev_count),
            last_modified: opt_view(self.last_modified),
            arbitrary: self.arbitrary@.map_values(|p: (String, String)| pair_view(p)),
        }
    }
}

/// The parameters of a reference that has none.
pub open spec fn empty_params() -> ParamsView {
    ParamsView {
        dir: None,
        nar_hash: None,
        rev: None,
        git_ref: None,
        branch: None,
        submodules: None,
        shallow: None,
        host: None,
        rev_count: None,
        last_modified: None,
        arbitrary: Seq::empty(),
    }
}

/// Another name for the parameter record.
pub type FlakeRefParameters = LocationParameters;

/// Another name for the key table.
pub type FlakeRefParamKeys = LocationParamKeys;

/// The keys with a field of their own. A leading `&` is tolerated.
pub enum LocationParamKeys {
    Dir,
    NarHash,
    Host,
    Ref,
    Rev,
    Branch,
    Submodules,
    Shallow,
    Arbitrary(String),
}

/// `k` is `name`, or `name` after one `&`.
pub open spec fn key_is(k: Seq<char>, name: Seq<char>) -> bool {
    k == name || (k.len() > 0 && k[0] == '&' && k.drop_first() == name)
}

/// `k` names a field of its own.
pub open spec fn is_known_key(k: Seq<char>) -> bool {
    key_is(k, "dir"@) || key_is(k, "nar_hash"@) || key_is(k, "host"@) || key_is(k, "rev"@)
        || key_is(k, "ref"@) || key_is(k, "branch"@) || key_is(k, "submodules"@) || key_is(
        k,
        "shallow"@,
    )
}

impl ParamsView {
    /// The record after reading `k=v`: a known key overwrites its field, any
    /// other pair is appended to the arbitrary ones.
    pub open spec fn with(self, k: Seq<char>, v: Seq<char>) -> ParamsView {
        if key_is(k, "dir"@) {
            ParamsView { dir: Some(v), ..self }
        } else if key_is(k, "nar_hash"@) {
            ParamsView { nar_hash: Some(v), ..self }
        } else if key_is(k, "host"@) {
            ParamsView { host: Some(v), ..self }
        } else if key_is(k, "rev"@) {
            ParamsView { rev: Some(v), ..self }
        } else if key_is(k, "ref"@) {
            ParamsView { git_ref: Some(v), ..self }
        } else if key_is(k, "branch"@) {
            ParamsView { branch: Some(v), ..self }
        } else if key_is(k, "submodules"@) {
            ParamsView { submodules: Some(v), ..self }
        } else if key_is(k, "shallow"@) {
            ParamsView { shallow: Some(v), ..self }
        } else {
            ParamsView { arbitrary: self.arbitrary.push((k, v)), ..self }
        }
    }
}

/// Reads pairs from `i` on into `acc`. A pair is an optional `&`, a key up
/// to `=`, then a value up to `&`, `#` or the end. Reading stops at `#`, at
/// the end, or before a pair without `=`; the position where it stopped
/// comes back with the record.
pub open spec fn spec_params(s: Seq<char>, i: int, acc: ParamsView) -> (ParamsView, int)
    decreases s.len() - i,
{
    if i < 0 || i >= s.len() || s[i] == '#' {
        (acc, i)
    } else {
        let ks = if s[i] == '&' {
            i + 1
        } else {
            i
        };
        let ke = scan(s, ks, Stop::Key);
        if char_at(s, ke, '=') {
            let ve = scan(s, ke + 1, Stop::Value);
            if ve <= i || ve > s.len() {
                (acc, i)
            } else {
                spec_params(s, ve, acc.with(s.subrange(ks, ke), s.subrange(ke + 1, ve)))
            }
        } else {
            (acc, i)
        }
    }
}

/// The pair for an optional field.
pub open spec fn opt_pair(k: Seq<char>, v: Option<Seq<char>>) -> Seq<(Seq<char>, Seq<char>)> {
    match v {
        Some(x) => seq![(k, x)],
        None => Seq::empty(),
    }
}

/// The pairs that render a record: the known fields in a fixed order, then
/// the arbitrary pairs in their order.
pub open spec fn param_pairs(p: ParamsView) -> Seq<(Seq<char>, Seq<char>)> {
    opt_pair("dir"@, p.dir) + opt_pair("branch"@, p.branch) + opt_pair("host"@, p.host) + opt_pair(
        "ref"@,
        p.git_ref,
    ) + opt_pair("rev"@, p.rev) + opt_pair("nar_hash"@, p.nar_hash) + opt_pair(
        "submodules"@,
        p.submodules,
    ) + opt_pair("shallow"@, p.shallow) + p.arbitrary
}

pub open spec fn pair_text(p: (Seq<char>, Seq<char>)) -> Seq<char> {
    p.0 + "="@ + p.1
}

/// `k=v` pairs joined by `&`.
pub open spec fn join_pairs(ps: Seq<(Seq<char>, Seq<char>)>) -> Seq<char>
    decreases ps.len(),
{
    if ps.len() == 0 {
        Seq::empty()
    } else if ps.len() == 1 {
        pair_text(ps.last())
    } else {
        join_pairs(ps.drop_last()) + "&"@ + pair_text(ps.last())
    }
}

/// The text of a record, without the leading `?`.
pub open spec fn render_params(p: ParamsView) -> Seq<char> {
    join_pairs(param_pairs(p))
}

impl LocationParamKeys {
    /// Looks a key up in the table of known keys.
    pub fn from_key(k: &str) -> (r: LocationParamKeys)
        ensures
            match r {
                LocationParamKeys::Dir => key_is(k@, "dir"@),
                LocationParamKeys::NarHash => !key_is(k@, "dir"@) && key_is(k@, "nar_hash"@),
                LocationParamKeys::Host => !key_is(k@, "dir"@) && !key_is(k@, "nar_hash"@)
                    && key_is(k@, "host"@),
                LocationParamKeys::Rev => !key_is(k@, "dir"@) && !key_is(k@, "nar_hash"@)
                    && !key_is(k@, "host"@) && key_is(k@, "rev"@),
                LocationParamKeys::Ref => !key_is(k@, "dir"@) && !key_is(k@, "nar_hash"@)
                    && !key_is(k@, "host"@) && !key_is(k@, "rev"@) && key_is(k@, "ref"@),
                LocationParamKeys::Branch => !key_is(k@, "dir"@) && !key_is(k@, "nar_hash"@)
                    && !key_is(k@, "host"@) && !key_is(k@, "rev"@) && !key_is(k@, "ref"@)
                    && key_is(k@, "branch"@),
                LocationParamKeys::Submodules => !key_is(k@, "dir"@) && !key_is(k@, "nar_hash"@)
                    && !key_is(k@, "host"@) && !key_is(k@, "rev"@) && !key_is(k@, "ref"@)
                    && !key_is(k@, "branch"@) && key_is(k@, "submodules"@),
                LocationParamKeys::Shallow => !key_is(k@, "dir"@) && !key_is(k@, "nar_hash"@)
                    && !key_is(k@, "host"@) && !key_is(k@, "rev"@) && !key_is(k@, "ref"@)
                    && !key_is(k@, "branch"@) && !key_is(k@, "submodules"@) && key_is(
                    k@,
                    "shallow"@,
                ),
                LocationParamKeys::Arbitrary(a) => a@ == k@ && !is_known_key(k@),
            },
    {
        if key_matches(k, "dir") {
            LocationParamKeys::Dir
        } else if key_matches(k, "nar_hash") {
            LocationParamKeys::NarHash
        } else if key_matches(k, "host") {
            LocationParamKeys::Host
        } else if key_matches(k, "rev") {
            LocationParamKeys::Rev
        } else if key_matches(k, "ref") {
            LocationParamKeys::Ref
        } else if key_matches(k, "branch") {
            LocationParamKeys::Branch
        } else if key_matches(k, "submodules") {
            LocationParamKeys::Submodules
        } else if key_matches(k, "shallow") {
            LocationParamKeys::Shallow
        } else {
            LocationParamKeys::Arbitrary(String::from_str(k))
        }
    }
}

/// Decides `key_is(k@, name@)`.
fn key_matches(k: &str, name: &str) -> (r: bool)
    ensures
        r == key_is(k@, name@),
{
    let n = k.unicode_len();
    if str_eq(k, name) {
        return true;
    }
    if n == 0 || k.get_char(0) != '&' {
        return false;
    }
    let tail = k.substring_char(1, n);
    assert(tail@ =~= k@.drop_first());
    str_eq(tail, name)
}

impl std::str::FromStr for LocationParamKeys {
    type Err = NixUriError;

    fn from_str(s: &str) -> Result<Self, Self::Err> {
        Ok(LocationParamKeys::from_key(s))
    }
}

impl Default for LocationParameters {
    fn default() -> (r: Self)
        ensures
            r@ == empty_params(),
    {
        LocationParameters::new()
    }
}

impl LocationParameters {
    /// A record with no parameter set.
    pub fn new() -> (r: Self)
        ensures
            r@ == empty_params(),
    {
        let r = LocationParameters {
            dir: None,
            nar_hash: None,
            rev: None,
            git_ref: None,
            branch: None,
            submodules: None,
            shallow: None,
            host: None,
            rev_count: None,
            last_modified: None,
            arbitrary: Vec::new(),
        };
        assert(r@.arbitrary =~= Seq::empty());
        r
    }

    /// Records `k=v` as `ParamsView::with` says.
    pub fn set_pair(&mut self, k: &str, v: String)
        ensures
            final(self)@ == old(self)@.with(k@, v@),
    {
        match LocationParamKeys::from_key(k) {
            LocationParamKeys::Dir => self.dir = Some(v),
            LocationParamKeys::NarHash => self.nar_hash = Some(v),
            LocationParamKeys::Host => self.host = Some(v),
            LocationParamKeys::Rev => self.rev = Some(v),
            LocationParamKeys::Ref => self.git_ref = Some(v),
            LocationParamKeys::Branch => self.branch = Some(v),
            LocationParamKeys::Submodules => self.submodules = Some(v),
            LocationParamKeys::Shallow => self.shallow = Some(v),
            LocationParamKeys::Arbitrary(a) => {
                self.arbitrary.push((a, v));
                assert(self@.arbitrary =~= old(self)@.arbitrary.push((k@, v@)));
            },
        }
    }
}

/// Finds `spec_params(s@, i, empty_params())`.
pub fn params_at(s: &str, n: usize, i: usize) -> (r: (LocationParameters, usize))
    requires
        n == s@.len(),
        i <= n,
    ensures
        (r.0@, r.1 as int) == spec_params(s@, i as int, empty_params()),
        i <= r.1 <= n,
{
    let mut p = LocationParameters::new();
    let mut k = i;
    let mut done = false;
    while !done && k < n && s.get_char(k) != '#'
        invariant
            n == s@.len(),
            i <= k <= n,
            spec_params(s@, k as int, p@) == spec_params(s@, i as int, empty_params()),
            done ==> spec_params(s@, k as int, p@) == (p@, k as int),
        decreases n - k + (if done {
            0int
        } else {
            1int
        }),
    {
        let ks = if s.get_char(k) == '&' {
            k + 1
        } else {
            k
        };
        let ke = scan_exec(s, n, ks, Stop::Key);
        if ke < n && s.get_char(ke) == '=' {
            let ve = scan_exec(s, n, ke + 1, Stop::Value);
            p.set_pair(text_between(s, ks, ke), slice(s, ke + 1, ve));
            k = ve;
        } else {
            done = true;
        }
    }
    (p, k)
}

/// The characters of an optional borrowed string.
pub open spec fn opt_ref_view(o: Option<&String>) -> Option<Seq<char>> {
    match o {
        Some(s) => Some(s@),
        None => None,
    }
}

impl LocationParameters {
    /// Reads parameters (without the leading `?`) from the start of `input`
    /// and advances `input` past them; what is left starts at `#`, at a pair
    /// without `=`, or is empty. Unknown keys are kept; a known key read
    /// twice keeps its last value.
    pub fn parse(input: &mut &str) -> (r: Result<LocationParameters, NixUriError>)
        ensures
            match r {
                Ok(p) => p@ == spec_params(old(input)@, 0, empty_params()).0 && (*final(input))@
                    == old(input)@.subrange(
                    spec_params(old(input)@, 0, empty_params()).1,
                    old(input)@.len() as int,
                ),
                Err(_) => false,
            },
    {
        let n = input.unicode_len();
        let (p, j) = params_at(input, n, 0);
        *input = text_between(input, j, n);
        Ok(p)
    }

    /// Reads `?` and then parameters, as `parse` does. Without a leading `?`
    /// it fails and leaves `input` as it was.
    pub fn parse_preceded(input: &mut &str) -> (r: Result<LocationParameters, NixUriError>)
        ensures
            match r {
                Ok(p) => char_at(old(input)@, 0, '?') && p@ == spec_params(
                    old(input)@,
                    1,
                    empty_params(),
                ).0 && (*final(input))@ == old(input)@.subrange(
                    spec_params(old(input)@, 1, empty_params()).1,
                    old(input)@.len() as int,
                ),
                Err(e) => !char_at(old(input)@, 0, '?') && e@ == ErrorView::ParseError(old(input)@)
                    && *final(input) == *old(input),
            },
    {
        let n = input.unicode_len();
        if n == 0 || input.get_char(0) != '?' {
            return Err(NixUriError::ParseError(String::from_str(*input)));
        }
        let (p, j) = params_at(input, n, 1);
        *input = text_between(input, j, n);
        Ok(p)
    }

    pub fn dir(&mut self, dir: Option<String>) -> (r: &mut Self)
        ensures
            r@ == (ParamsView { dir: opt_view(dir), ..old(self)@ }),
            *final(self) == *final(r),
    {
        self.dir = dir;
        self
    }

    pub fn nar_hash(&mut self, nar_hash: Option<String>) -> (r: &mut Self)
        ensures
            r@ == (ParamsView { nar_hash: opt_view(nar_hash), ..old(self)@ }),
            *final(self) == *final(r),
    {
        self.nar_hash = nar_hash;
        self
    }

    pub fn host(&mut self, host: Option<String>) -> (r: &mut Self)
        ensures
            r@ == (ParamsView { host: opt_view(host), ..old(self)@ }),
            *final(self) == *final(r),
    {
        self.host = host;
        self
    }

    pub fn rev(&mut self, rev: Option<String>) -> (r: &mut Self)
        ensures
            r@ == (ParamsView { rev: opt_view(rev), ..old(self)@ }),
            *final(self) == *final(r),
    {
        self.rev = rev;
        self
    }

    pub fn git_ref(&mut self, git_ref: Option<String>) -> (r: &mut Self)
        ensures
            r@ == (ParamsView { git_ref: opt_view(git_ref), ..old(self)@ }),
            *final(self) == *final(r),
    {
        self.git_ref = git_ref;
        self
    }

    pub fn set_dir(&mut self, dir: Option<String>)
        ensures
            final(self)@ == (ParamsView { dir: opt_view(dir), ..old(self)@ }),
    {
        self.dir = dir;
    }

    pub fn set_nar_hash(&mut self, nar_hash: Option<String>)
        ensures
            final(self)@ == (ParamsView { nar_hash: opt_view(nar_hash), ..old(self)@ }),
    {
        self.nar_hash = nar_hash;
    }

    pub fn set_rev(&mut self, rev: Option<String>)
        ensures
            final(self)@ == (ParamsView { rev: opt_view(rev), ..old(self)@ }),
    {
        self.rev = rev;
    }

    pub fn set_ref(&mut self, git_ref: Option<String>)
        ensures
            final(self)@ == (ParamsView { git_ref: opt_view(git_ref), ..old(self)@ }),
    {
        self.git_ref = git_ref;
    }

    pub fn set_host(&mut self, host: Option<String>)
        ensures
            final(self)@ == (ParamsView { host: opt_view(host), ..old(self)@ }),
    {
        self.host = host;
    }

    /// The revision count, to be read or changed in place.
    pub fn rev_count_mut(&mut self) -> (r: &mut Option<String>)
        ensures
            *r == old(self).rev_count,
            final(self)@ == (ParamsView { rev_count: opt_view(*final(r)), ..old(self)@ }),
    {
        &mut self.rev_count
    }

    pub fn set_branch(&mut self, branch: Option<String>)
        ensures
            final(self)@ == (ParamsView { branch: opt_view(branch), ..old(self)@ }),
    {
        self.branch = branch;
    }

    pub fn set_submodules(&mut self, submodules: Option<String>)
        ensures
            final(self)@ == (ParamsView { submodules: opt_view(submodules), ..old(self)@ }),
    {
        self.submodules = submodules;
    }

    pub fn set_shallow(&mut self, shallow: Option<String>)
        ensures
            final(self)@ == (ParamsView { shallow: opt_view(shallow), ..old(self)@ }),
    {
        self.shallow = shallow;
    }

    /// Appends a pair to the arbitrary ones.
    pub fn add_arbitrary(&mut self, arbitrary: (String, String))
        ensures
            final(self)@ == (ParamsView {
                arbitrary: old(self)@.arbitrary.push(pair_view(arbitrary)),
                ..old(self)@
            }),
    {
        self.arbitrary.push(arbitrary);
        assert(self@.arbitrary =~= old(self)@.arbitrary.push(pair_view(arbitrary)));
    }

    pub fn get_rev(&self) -> (r: Option<&String>)
        ensures
            opt_ref_view(r) == self@.rev,
    {
        self.rev.as_ref()
    }

    pub fn get_ref(&self) -> (r: Option<&String>)
        ensures
            opt_ref_view(r) == self@.git_ref,
    {
        self.git_ref.as_ref()
    }

    /// The parameters as text, without the leading `?`: the set known
    /// fields in the order dir, branch, host, ref, rev, nar_hash,
    /// submodules, shallow, then the arbitrary pairs, joined by `&`.
    pub fn to_string(&self) -> (r: String)
        ensures
            r@ == render_params(self@),
    {
        let mut out = String::new();
        let ghost mut ps: Seq<(Seq<char>, Seq<char>)> = Seq::empty();
        proof {
            assert(out@ =~= join_pairs(ps));
        }
        push_opt(&mut out, "dir", &self.dir, Ghost(ps));
        proof {
            ps = ps + opt_pair("dir"@, self@.dir);
        }
        push_opt(&mut out, "branch", &self.branch, Ghost(ps));
        proof {
            ps = ps + opt_pair("branch"@, self@.branch);
        }
        push_opt(&mut out, "host", &self.host, Ghost(ps));
        proof {
            ps = ps + opt_pair("host"@, self@.host);
        }
        push_opt(&mut out, "ref", &self.git_ref, Ghost(ps));
        proof {
            ps = ps + opt_pair("ref"@, self@.git_ref);
        }
        push_opt(&mut out, "rev", &self.rev, Ghost(ps));
        proof {
            ps = ps + opt_pair("rev"@, self@.rev);
        }
        push_opt(&mut out, "nar_hash", &self.nar_hash, Ghost(ps));
        proof {
            ps = ps + opt_pair("nar_hash"@, self@.nar_hash);
        }
        push_opt(&mut out, "submodules", &self.submodules, Ghost(ps));
        proof {
            ps = ps + opt_pair("submodules"@, self@.submodules);
        }
        push_opt(&mut out, "shallow", &self.shallow, Ghost(ps));
        proof {
            ps = ps + opt_pair("shallow"@, self@.shallow);
        }
        let ghost base = ps;
        let mut i: usize = 0;
        while i < self.arbitrary.len()
            invariant
                i <= self.arbitrary@.len(),
                ps == base + self@.arbitrary.take(i as int),
                out@ == join_pairs(ps),
            decreases self.arbitrary@.len() - i,
        {
            let (k, v) = &self.arbitrary[i];
            push_pair(&mut out, k.as_str(), v.as_str(), Ghost(ps));
            proof {
                ps = ps.push((k@, v@));
                assert(self@.arbitrary.take(i + 1) =~= self@.arbitrary.take(i as int).push(
                    (k@, v@),
                ));
            }
            i += 1;
        }
        proof {
            assert(self@.arbitrary.take(i as int) =~= self@.arbitrary);
        }
        out
    }
}

/// Appends `k=v` to the joined pairs `ps`.
fn push_pair(out: &mut String, k: &str, v: &str, Ghost(ps): Ghost<Seq<(Seq<char>, Seq<char>)>>)
    requires
        old(out)@ == join_pairs(ps),
    ensures
        final(out)@ == join_pairs(ps.push((k@, v@))),
{
    proof {
        assert(ps.push((k@, v@)).drop_last() =~= ps);
    }
    if out.unicode_len() > 0 {
        out.append("&");
    } else {
        proof {
            lemma_join_empty(ps);
        }
    }
    out.append(k);
    out.append("=");
    out.append(v);
    proof {
        reveal_strlit("&");
        reveal_strlit("=");
        assert(final(out)@ =~= join_pairs(ps.push((k@, v@))));
    }
}

/// Appends `k=v` where `v` is set.
fn push_opt(
    out: &mut String,
    k: &str,
    v: &Option<String>,
    Ghost(ps): Ghost<Seq<(Seq<char>, Seq<char>)>>,
)
    requires
        old(out)@ == join_pairs(ps),
    ensures
        final(out)@ == join_pairs(ps + opt_pair(k@, opt_view(*v))),
{
    match v {
        Some(x) => {
            push_pair(out, k, x.as_str(), Ghost(ps));
            assert(ps + opt_pair(k@, opt_view(*v)) =~= ps.push((k@, x@)));
        },
        None => {
            assert(ps + opt_pair(k@, opt_view(*v)) =~= ps);
        },
    }
}

/// Joined pairs are empty only where there are no pairs.
pub proof fn lemma_join_empty(ps: Seq<(Seq<char>, Seq<char>)>)
    ensures
        join_pairs(ps).len() == 0 <==> ps.len() == 0,
    decreases ps.len(),
{
    reveal_strlit("=");
    reveal_strlit("&");
    if ps.len() > 1 {
        lemma_join_empty(ps.drop_last());
    }
}

} // verus!
