//! Laws of the grammar and its rendering, proved over the spec functions
//! that the parsers and renderers are verified against.
use vstd::prelude::*;

use crate::location_params::{
    empty_params, is_known_key, join_pairs, opt_pair, pair_text, param_pairs, render_params,
    spec_params, ParamsView,
};
use crate::error::ErrorView;
use crate::flakeref::{render, spec_flake_ref, FlakeRefView};
use crate::parser::{sanitary, spec_parse};
use crate::forge::{platform_text, spec_forge, spec_forge_span, spec_platform, GitForgePlatform, GitForgeView};
use crate::fr_type::{
    spec_bare_indirect, two_slashes, forge_lead, path_chars_ok, plain_lead, render_type, resource_lead,
    spec_dispatch, spec_indirect_body, spec_path, spec_path_body, TypeView,
};
use crate::resource_url::{
    resource_text, spec_location, spec_resource, spec_resource_type, ResourceType, ResourceView,
};
use crate::transport_layer::{spec_transport, transport_text, TransportLayer};
use crate::text::{
    char_at, free_of, is_alpha, is_id_char, lemma_scan, lemma_scan_is, scan, starts_at, Stop,
};

verus! {

/// The record after reading the pairs `ps` in order.
pub open spec fn with_all(acc: ParamsView, ps: Seq<(Seq<char>, Seq<char>)>) -> ParamsView
    decreases ps.len(),
{
    if ps.len() == 0 {
        acc
    } else {
        with_all(acc, ps.drop_last()).with(ps.last().0, ps.last().1)
    }
}

/// Keys free of `=`, `&`, `#`; values free of `&`, `#`.
pub open spec fn pairs_wf(ps: Seq<(Seq<char>, Seq<char>)>) -> bool {
    forall|i: int| 0 <= i < ps.len() ==> free_of(#[trigger] ps[i].0, Stop::Key) && free_of(
        ps[i].1,
        Stop::Value,
    )
}

/// The separator before the pair at index `m` of a join.
pub open spec fn sep(m: int) -> Seq<char> {
    if m == 0 {
        Seq::empty()
    } else {
        "&"@
    }
}

proof fn lemma_join_step(ps: Seq<(Seq<char>, Seq<char>)>, m: int)
    requires
        0 <= m < ps.len(),
    ensures
        join_pairs(ps.take(m + 1)) == join_pairs(ps.take(m)) + sep(m) + pair_text(ps[m]),
{
    let t = ps.take(m + 1);
    assert(t.drop_last() =~= ps.take(m));
    assert(t.last() == ps[m]);
    if m == 0 {
        assert(ps.take(0) =~= Seq::<(Seq<char>, Seq<char>)>::empty());
        assert(join_pairs(ps.take(0)) + sep(0) + pair_text(ps[0]) =~= pair_text(ps[0]));
    }
}

proof fn lemma_join_prefix(ps: Seq<(Seq<char>, Seq<char>)>, m: int)
    requires
        0 <= m <= ps.len(),
    ensures
        join_pairs(ps.take(m)).len() <= join_pairs(ps).len(),
        join_pairs(ps).subrange(0, join_pairs(ps.take(m)).len() as int) == join_pairs(ps.take(m)),
    decreases ps.len() - m,
{
    if m == ps.len() {
        assert(ps.take(m) =~= ps);
        assert(join_pairs(ps).subrange(0, join_pairs(ps).len() as int) =~= join_pairs(ps));
    } else {
        lemma_join_prefix(ps, m + 1);
        lemma_join_step(ps, m);
        let a = join_pairs(ps.take(m));
        let b = join_pairs(ps.take(m + 1));
        let j = join_pairs(ps);
        assert(j.subrange(0, a.len() as int) =~= b.subrange(0, a.len() as int));
        assert(b.subrange(0, a.len() as int) =~= a);
    }
}

/// Reading the text of joined pairs, from the start of the pair at index
/// `k` on, reads the rest of the pairs and stops at the end.
#[verifier::rlimit(100)]
proof fn lemma_params_from(
    s: Seq<char>,
    base: int,
    ps: Seq<(Seq<char>, Seq<char>)>,
    acc: ParamsView,
    k: int,
)
    requires
        pairs_wf(ps),
        0 <= base,
        s.len() == base + join_pairs(ps).len(),
        s.subrange(base, s.len() as int) == join_pairs(ps),
        0 <= k <= ps.len(),
    ensures
        spec_params(s, base + join_pairs(ps.take(k)).len(), with_all(acc, ps.take(k))) == (
            with_all(acc, ps),
            s.len() as int,
        ),
    decreases ps.len() - k,
{
    reveal_strlit("&");
    reveal_strlit("=");
    let j = join_pairs(ps);
    if k == ps.len() {
        assert(ps.take(k) =~= ps);
    } else {
        lemma_join_step(ps, k);
        lemma_join_prefix(ps, k + 1);
        let jk = join_pairs(ps.take(k));
        let jk1 = join_pairs(ps.take(k + 1));
        let key = ps[k].0;
        let val = ps[k].1;
        let i = base + jk.len();
        let ks = i + sep(k).len();
        let ke = ks + key.len();
        let ve = ke + 1 + val.len();
        assert(jk1 =~= jk + sep(k) + key + "="@ + val);
        assert(ve == base + jk1.len());
        assert forall|x: int| 0 <= x < jk1.len() implies s[base + x] == #[trigger] jk1[x] by {
            assert(s.subrange(base, s.len() as int)[x] == s[base + x]);
            assert(j.subrange(0, jk1.len() as int)[x] == j[x]);
        }
        assert(pairs_wf(ps) ==> free_of(key, Stop::Key) && free_of(val, Stop::Value));
        assert forall|x: int| ks <= x < ke implies !Stop::Key.at(#[trigger] s[x]) by {
            assert(s[base + (x - base)] == jk1[x - base]);
            assert(jk1[x - base] == key[x - ks]);
        }
        assert(s[base + (ke - base)] == jk1[ke - base]);
        assert(s[ke] == '=');
        lemma_scan_is(s, ks, Stop::Key, ke);
        assert forall|x: int| ke + 1 <= x < ve implies !Stop::Value.at(#[trigger] s[x]) by {
            assert(s[base + (x - base)] == jk1[x - base]);
            assert(jk1[x - base] == val[x - ke - 1]);
        }
        if k + 1 < ps.len() {
            lemma_join_step(ps, k + 1);
            lemma_join_prefix(ps, k + 2);
            let jk2 = join_pairs(ps.take(k + 2));
            assert(jk2 =~= jk1 + "&"@ + pair_text(ps[k + 1]));
            assert(j.subrange(0, jk2.len() as int)[jk1.len() as int] == j[jk1.len() as int]);
            assert(s.subrange(base, s.len() as int)[jk1.len() as int] == s[ve]);
            assert(s[ve] == '&');
        }
        lemma_scan_is(s, ke + 1, Stop::Value, ve);
        if k == 0 {
            assert(s[base + 0] == jk1[0]);
        } else {
            assert(s[base + (i - base)] == jk1[i - base]);
            assert(s[i] == '&');
        }
        assert(s.subrange(ks, ke) =~= key) by {
            assert forall|x: int| 0 <= x < key.len() implies s.subrange(ks, ke)[x] == key[x] by {
                assert(s[base + (ks + x - base)] == jk1[ks + x - base]);
            }
        }
        assert(s.subrange(ke + 1, ve) =~= val) by {
            assert forall|x: int| 0 <= x < val.len() implies s.subrange(ke + 1, ve)[x]
                == val[x] by {
                assert(s[base + (ke + 1 + x - base)] == jk1[ke + 1 + x - base]);
            }
        }
        assert(ps.take(k + 1).drop_last() =~= ps.take(k));
        lemma_params_from(s, base, ps, acc, k + 1);
    }
}

proof fn lemma_with_all_concat(
    acc: ParamsView,
    a: Seq<(Seq<char>, Seq<char>)>,
    b: Seq<(Seq<char>, Seq<char>)>,
)
    ensures
        with_all(acc, a + b) == with_all(with_all(acc, a), b),
    decreases b.len(),
{
    if b.len() == 0 {
        assert(a + b =~= a);
    } else {
        assert((a + b).drop_last() =~= a + b.drop_last());
        assert((a + b).last() == b.last());
        lemma_with_all_concat(acc, a, b.drop_last());
    }
}

/// Pairs with unknown keys are appended in their order.
proof fn lemma_with_all_arbitrary(acc: ParamsView, arb: Seq<(Seq<char>, Seq<char>)>)
    requires
        forall|i: int| 0 <= i < arb.len() ==> !is_known_key(#[trigger] arb[i].0),
    ensures
        with_all(acc, arb) == (ParamsView { arbitrary: acc.arbitrary + arb, ..acc }),
    decreases arb.len(),
{
    if arb.len() == 0 {
        assert(acc.arbitrary + arb =~= acc.arbitrary);
    } else {
        let last = arb.last();
        assert(!is_known_key(arb[arb.len() - 1].0));
        lemma_with_all_arbitrary(acc, arb.drop_last());
        assert(acc.arbitrary + arb.drop_last() + seq![last] =~= acc.arbitrary + arb);
        assert((acc.arbitrary + arb.drop_last()).push(last) =~= acc.arbitrary + arb);
    }
}

/// A record that the text can carry: the fields that are never read from
/// text are unset, values hold no `&` or `#`, and each arbitrary key is
/// unknown and holds no `=`, `&` or `#`.
pub open spec fn params_wf(p: ParamsView) -> bool {
    &&& p.rev_count is None
    &&& p.last_modified is None
    &&& forall|v: Seq<char>| p.dir == Some(v) ==> free_of(v, Stop::Value)
    &&& forall|v: Seq<char>| p.nar_hash == Some(v) ==> free_of(v, Stop::Value)
    &&& forall|v: Seq<char>| p.rev == Some(v) ==> free_of(v, Stop::Value)
    &&& forall|v: Seq<char>| p.git_ref == Some(v) ==> free_of(v, Stop::Value)
    &&& forall|v: Seq<char>| p.branch == Some(v) ==> free_of(v, Stop::Value)
    &&& forall|v: Seq<char>| p.submodules == Some(v) ==> free_of(v, Stop::Value)
    &&& forall|v: Seq<char>| p.shallow == Some(v) ==> free_of(v, Stop::Value)
    &&& forall|v: Seq<char>| p.host == Some(v) ==> free_of(v, Stop::Value)
    &&& forall|i: int|
        0 <= i < p.arbitrary.len() ==> !is_known_key(#[trigger] p.arbitrary[i].0) && free_of(
            p.arbitrary[i].0,
            Stop::Key,
        ) && free_of(p.arbitrary[i].1, Stop::Value)
}

proof fn lemma_names()
    ensures
        "dir"@ == seq!['d', 'i', 'r'],
        "nar_hash"@ == seq!['n', 'a', 'r', '_', 'h', 'a', 's', 'h'],
        "host"@ == seq!['h', 'o', 's', 't'],
        "rev"@ == seq!['r', 'e', 'v'],
        "ref"@ == seq!['r', 'e', 'f'],
        "branch"@ == seq!['b', 'r', 'a', 'n', 'c', 'h'],
        "submodules"@ == seq!['s', 'u', 'b', 'm', 'o', 'd', 'u', 'l', 'e', 's'],
        "shallow"@ == seq!['s', 'h', 'a', 'l', 'l', 'o', 'w'],
{
    reveal_strlit("dir");
    reveal_strlit("nar_hash");
    reveal_strlit("host");
    reveal_strlit("rev");
    reveal_strlit("ref");
    reveal_strlit("branch");
    reveal_strlit("submodules");
    reveal_strlit("shallow");
    assert("dir"@ =~= seq!['d', 'i', 'r']);
    assert("nar_hash"@ =~= seq!['n', 'a', 'r', '_', 'h', 'a', 's', 'h']);
    assert("host"@ =~= seq!['h', 'o', 's', 't']);
    assert("rev"@ =~= seq!['r', 'e', 'v']);
    assert("ref"@ =~= seq!['r', 'e', 'f']);
    assert("branch"@ =~= seq!['b', 'r', 'a', 'n', 'c', 'h']);
    assert("submodules"@ =~= seq!['s', 'u', 'b', 'm', 'o', 'd', 'u', 'l', 'e', 's']);
    assert("shallow"@ =~= seq!['s', 'h', 'a', 'l', 'l', 'o', 'w']);
}

proof fn lemma_with_dir(acc: ParamsView, x: Seq<char>)
    ensures
        acc.with("dir"@, x) == (ParamsView { dir: Some(x), ..acc }),
{
    lemma_names();
}

proof fn lemma_with_branch(acc: ParamsView, x: Seq<char>)
    ensures
        acc.with("branch"@, x) == (ParamsView { branch: Some(x), ..acc }),
{
    lemma_names();
}

proof fn lemma_with_host(acc: ParamsView, x: Seq<char>)
    ensures
        acc.with("host"@, x) == (ParamsView { host: Some(x), ..acc }),
{
    lemma_names();
}

proof fn lemma_with_git_ref(acc: ParamsView, x: Seq<char>)
    ensures
        acc.with("ref"@, x) == (ParamsView { git_ref: Some(x), ..acc }),
{
    lemma_names();
}

proof fn lemma_with_rev(acc: ParamsView, x: Seq<char>)
    ensures
        acc.with("rev"@, x) == (ParamsView { rev: Some(x), ..acc }),
{
    lemma_names();
}

proof fn lemma_with_nar_hash(acc: ParamsView, x: Seq<char>)
    ensures
        acc.with("nar_hash"@, x) == (ParamsView { nar_hash: Some(x), ..acc }),
{
    lemma_names();
}

proof fn lemma_with_submodules(acc: ParamsView, x: Seq<char>)
    ensures
        acc.with("submodules"@, x) == (ParamsView { submodules: Some(x), ..acc }),
{
    lemma_names();
}

proof fn lemma_with_shallow(acc: ParamsView, x: Seq<char>)
    ensures
        acc.with("shallow"@, x) == (ParamsView { shallow: Some(x), ..acc }),
{
    lemma_names();
}

/// Setting a known field by its name.
proof fn lemma_with_opt(acc: ParamsView, k: Seq<char>, v: Option<Seq<char>>)
    ensures
        with_all(acc, opt_pair(k, v)) == match v {
            Some(x) => acc.with(k, x),
            None => acc,
        },
{
    let ps = opt_pair(k, v);
    if let Some(x) = v {
        assert(ps.drop_last() =~= Seq::<(Seq<char>, Seq<char>)>::empty());
        assert(with_all(acc, ps.drop_last()) == acc);
        assert(ps.last() == (k, x));
    } else {
        assert(ps =~= Seq::<(Seq<char>, Seq<char>)>::empty());
    }
}

/// Reading the pairs of a well-formed record rebuilds it.
proof fn lemma_with_all_params(p: ParamsView)
    requires
        params_wf(p),
    ensures
        with_all(empty_params(), param_pairs(p)) == p,
{
    let o1 = opt_pair("dir"@, p.dir);
    let o2 = opt_pair("branch"@, p.branch);
    let o3 = opt_pair("host"@, p.host);
    let o4 = opt_pair("ref"@, p.git_ref);
    let o5 = opt_pair("rev"@, p.rev);
    let o6 = opt_pair("nar_hash"@, p.nar_hash);
    let o7 = opt_pair("submodules"@, p.submodules);
    let o8 = opt_pair("shallow"@, p.shallow);
    let e = empty_params();
    lemma_with_all_concat(e, o1 + o2 + o3 + o4 + o5 + o6 + o7 + o8, p.arbitrary);
    lemma_with_all_concat(e, o1 + o2 + o3 + o4 + o5 + o6 + o7, o8);
    lemma_with_all_concat(e, o1 + o2 + o3 + o4 + o5 + o6, o7);
    lemma_with_all_concat(e, o1 + o2 + o3 + o4 + o5, o6);
    lemma_with_all_concat(e, o1 + o2 + o3 + o4, o5);
    lemma_with_all_concat(e, o1 + o2 + o3, o4);
    lemma_with_all_concat(e, o1 + o2, o3);
    lemma_with_all_concat(e, o1, o2);
    let w1 = with_all(e, o1);
    lemma_with_opt(e, "dir"@, p.dir);
    if let Some(x) = p.dir {
        lemma_with_dir(e, x);
    }
    assert(w1 == ParamsView { dir: p.dir, ..e });
    let w2 = with_all(w1, o2);
    lemma_with_opt(w1, "branch"@, p.branch);
    if let Some(x) = p.branch {
        lemma_with_branch(w1, x);
    }
    assert(w2 == ParamsView { branch: p.branch, ..w1 });
    let w3 = with_all(w2, o3);
    lemma_with_opt(w2, "host"@, p.host);
    if let Some(x) = p.host {
        lemma_with_host(w2, x);
    }
    assert(w3 == ParamsView { host: p.host, ..w2 });
    let w4 = with_all(w3, o4);
    lemma_with_opt(w3, "ref"@, p.git_ref);
    if let Some(x) = p.git_ref {
        lemma_with_git_ref(w3, x);
    }
    assert(w4 == ParamsView { git_ref: p.git_ref, ..w3 });
    let w5 = with_all(w4, o5);
    lemma_with_opt(w4, "rev"@, p.rev);
    if let Some(x) = p.rev {
        lemma_with_rev(w4, x);
    }
    assert(w5 == ParamsView { rev: p.rev, ..w4 });
    let w6 = with_all(w5, o6);
    lemma_with_opt(w5, "nar_hash"@, p.nar_hash);
    if let Some(x) = p.nar_hash {
        lemma_with_nar_hash(w5, x);
    }
    assert(w6 == ParamsView { nar_hash: p.nar_hash, ..w5 });
    let w7 = with_all(w6, o7);
    lemma_with_opt(w6, "submodules"@, p.submodules);
    if let Some(x) = p.submodules {
        lemma_with_submodules(w6, x);
    }
    assert(w7 == ParamsView { submodules: p.submodules, ..w6 });
    let w8 = with_all(w7, o8);
    lemma_with_opt(w7, "shallow"@, p.shallow);
    if let Some(x) = p.shallow {
        lemma_with_shallow(w7, x);
    }
    assert(w8 == ParamsView { shallow: p.shallow, ..w7 });
    lemma_with_all_arbitrary(w8, p.arbitrary);
    assert(param_pairs(p) == o1 + o2 + o3 + o4 + o5 + o6 + o7 + o8 + p.arbitrary);
    assert(w8.arbitrary + p.arbitrary =~= p.arbitrary);
}

/// The known keys hold no `=`, `&` or `#`.
proof fn lemma_names_free()
    ensures
        free_of("dir"@, Stop::Key),
        free_of("branch"@, Stop::Key),
        free_of("host"@, Stop::Key),
        free_of("ref"@, Stop::Key),
        free_of("rev"@, Stop::Key),
        free_of("nar_hash"@, Stop::Key),
        free_of("submodules"@, Stop::Key),
        free_of("shallow"@, Stop::Key),
{
    lemma_names();
}

/// The pairs of a well-formed record can be read back.
proof fn lemma_param_pairs_wf(p: ParamsView)
    requires
        params_wf(p),
    ensures
        pairs_wf(param_pairs(p)),
{
    lemma_names_free();
    let ps = param_pairs(p);
    let o = opt_pair("dir"@, p.dir) + opt_pair("branch"@, p.branch) + opt_pair("host"@, p.host)
        + opt_pair("ref"@, p.git_ref) + opt_pair("rev"@, p.rev) + opt_pair(
        "nar_hash"@,
        p.nar_hash,
    ) + opt_pair("submodules"@, p.submodules) + opt_pair("shallow"@, p.shallow);
    assert(pairs_wf(o)) by {
        assert forall|i: int| 0 <= i < o.len() implies free_of(#[trigger] o[i].0, Stop::Key)
            && free_of(o[i].1, Stop::Value) by {
            lemma_names_free();
        }
    }
    assert forall|i: int| 0 <= i < ps.len() implies free_of(#[trigger] ps[i].0, Stop::Key)
        && free_of(ps[i].1, Stop::Value) by {
        if i >= o.len() {
            assert(ps[i] == p.arbitrary[i - o.len()]);
        } else {
            assert(ps[i] == o[i]);
        }
    }
}

/// The text of a well-formed record, standing at the end of `s` from
/// `base` on, reads back as that record.
pub proof fn lemma_params_round_trip(s: Seq<char>, base: int, p: ParamsView)
    requires
        params_wf(p),
        0 <= base,
        s.len() == base + render_params(p).len(),
        s.subrange(base, s.len() as int) == render_params(p),
    ensures
        spec_params(s, base, empty_params()) == (p, s.len() as int),
{
    let ps = param_pairs(p);
    lemma_param_pairs_wf(p);
    assert(ps.take(0) =~= Seq::<(Seq<char>, Seq<char>)>::empty());
    lemma_params_from(s, base, ps, empty_params(), 0);
    lemma_with_all_params(p);
}

/// The text that may follow a reference type: nothing, or parameters.
pub open spec fn tail_ok(tail: Seq<char>) -> bool {
    tail.len() == 0 || tail[0] == '?'
}

/// A reference type that the grammar can produce.
pub open spec fn type_wf(t: TypeView) -> bool {
    match t {
        TypeView::Resource(r) => free_of(r.location, Stop::Query),
        TypeView::GitForge(g) => {
            &&& g.owner.len() > 0
            &&& free_of(g.owner, Stop::Segment)
            &&& g.repo.len() > 0
            &&& free_of(g.repo, Stop::Segment)
            &&& match g.ref_or_rev {
                Some(x) => x.len() > 0 && free_of(x, Stop::Query),
                None => true,
            }
        },
        TypeView::Indirect { id, ref_or_rev } => {
            &&& id.len() > 0
            &&& is_alpha(id[0])
            &&& forall|k: int| 0 <= k < id.len() ==> is_id_char(#[trigger] id[k])
            &&& match ref_or_rev {
                Some(x) => x.len() > 0 && free_of(x, Stop::Query),
                None => true,
            }
        },
        TypeView::Path { path } => {
            &&& path.len() > 0
            &&& (path[0] == '/' || path[0] == '.')
            &&& free_of(path, Stop::Query)
            &&& path_chars_ok(path)
        },
        TypeView::Unset => false,
    }
}

proof fn lemma_lits()
    ensures
        "path:"@ == seq!['p', 'a', 't', 'h', ':'],
        "flake:"@ == seq!['f', 'l', 'a', 'k', 'e', ':'],
        "github"@ == seq!['g', 'i', 't', 'h', 'u', 'b'],
        "gitlab"@ == seq!['g', 'i', 't', 'l', 'a', 'b'],
        "sourcehut"@ == seq!['s', 'o', 'u', 'r', 'c', 'e', 'h', 'u', 't'],
        "https"@ == seq!['h', 't', 't', 'p', 's'],
        "http"@ == seq!['h', 't', 't', 'p'],
        "ssh"@ == seq!['s', 's', 'h'],
        "file"@ == seq!['f', 'i', 'l', 'e'],
        "git"@ == seq!['g', 'i', 't'],
        "hg"@ == seq!['h', 'g'],
        "tarball"@ == seq!['t', 'a', 'r', 'b', 'a', 'l', 'l'],
        "://"@ == seq![':', '/', '/'],
        "//"@ == seq!['/', '/'],
        ":"@ == seq![':'],
        "/"@ == seq!['/'],
        "+"@ == seq!['+'],
        "?"@ == seq!['?'],
{
    reveal_strlit("path:");
    reveal_strlit("flake:");
    reveal_strlit("github");
    reveal_strlit("gitlab");
    reveal_strlit("sourcehut");
    reveal_strlit("https");
    reveal_strlit("http");
    reveal_strlit("ssh");
    reveal_strlit("file");
    reveal_strlit("git");
    reveal_strlit("hg");
    reveal_strlit("tarball");
    reveal_strlit("://");
    reveal_strlit("//");
    reveal_strlit(":");
    reveal_strlit("/");
    reveal_strlit("+");
    reveal_strlit("?");
    assert("path:"@ =~= seq!['p', 'a', 't', 'h', ':']);
    assert("flake:"@ =~= seq!['f', 'l', 'a', 'k', 'e', ':']);
    assert("github"@ =~= seq!['g', 'i', 't', 'h', 'u', 'b']);
    assert("gitlab"@ =~= seq!['g', 'i', 't', 'l', 'a', 'b']);
    assert("sourcehut"@ =~= seq!['s', 'o', 'u', 'r', 'c', 'e', 'h', 'u', 't']);
    assert("https"@ =~= seq!['h', 't', 't', 'p', 's']);
    assert("http"@ =~= seq!['h', 't', 't', 'p']);
    assert("ssh"@ =~= seq!['s', 's', 'h']);
    assert("file"@ =~= seq!['f', 'i', 'l', 'e']);
    assert("git"@ =~= seq!['g', 'i', 't']);
    assert("hg"@ =~= seq!['h', 'g']);
    assert("tarball"@ =~= seq!['t', 'a', 'r', 'b', 'a', 'l', 'l']);
    assert("://"@ =~= seq![':', '/', '/']);
    assert("//"@ =~= seq!['/', '/']);
    assert(":"@ =~= seq![':']);
    assert("/"@ =~= seq!['/']);
    assert("+"@ =~= seq!['+']);
    assert("?"@ =~= seq!['?']);
}

/// `p` does not stand at `i` where one of its characters differs.
proof fn lemma_differs_at(s: Seq<char>, i: int, p: Seq<char>, d: int)
    requires
        0 <= i,
        0 <= d < p.len(),
        i + p.len() > s.len() || s[i + d] != p[d],
    ensures
        !starts_at(s, i, p),
{
    if starts_at(s, i, p) {
        assert(s.subrange(i, i + p.len())[d] == s[i + d]);
    }
}

/// A run of `w` at `i`, ended by a stop character or the end, is what
/// `scan` finds.
proof fn lemma_run(s: Seq<char>, i: int, w: Seq<char>, stop: Stop)
    requires
        0 <= i,
        i + w.len() <= s.len(),
        s.subrange(i, i + w.len()) == w,
        free_of(w, stop),
        i + w.len() == s.len() || stop.at(s[i + w.len()]),
    ensures
        scan(s, i, stop) == i + w.len(),
{
    assert forall|k: int| i <= k < i + w.len() implies !stop.at(#[trigger] s[k]) by {
        assert(s.subrange(i, i + w.len())[k - i] == s[k]);
    }
    lemma_scan_is(s, i, stop, i + w.len());
}

/// Where the text after a tag stands, the platform tag decides.
proof fn lemma_platform_at(s: Seq<char>, p: GitForgePlatform)
    requires
        s.len() >= platform_text(p).len(),
        s.subrange(0, platform_text(p).len() as int) == platform_text(p),
    ensures
        spec_platform(s, 0) == Some((p, platform_text(p).len() as int)),
{
    lemma_lits();
    let pt = platform_text(p);
    assert(s[0] == pt[0]) by {
        assert(s.subrange(0, pt.len() as int)[0] == s[0]);
    }
    assert(s[3] == pt[3]) by {
        assert(s.subrange(0, pt.len() as int)[3] == s[3]);
    }
    match p {
        GitForgePlatform::GitHub => {},
        GitForgePlatform::GitLab => {
            lemma_differs_at(s, 0, "github"@, 3);
        },
        GitForgePlatform::SourceHut => {
            lemma_differs_at(s, 0, "github"@, 0);
            lemma_differs_at(s, 0, "gitlab"@, 0);
        },
    }
}

/// A forge shorthand reads back from its text.
#[verifier::rlimit(100)]
proof fn lemma_dispatch_forge(g: GitForgeView, tail: Seq<char>)
    requires
        type_wf(TypeView::GitForge(g)),
        tail_ok(tail),
    ensures
        spec_dispatch(render_type(TypeView::GitForge(g)) + tail, 0) == Ok::<
            (TypeView, int),
            ErrorView,
        >((TypeView::GitForge(g), render_type(TypeView::GitForge(g)).len() as int)),
{
    lemma_lits();
    let t = TypeView::GitForge(g);
    let pt = platform_text(g.platform);
    let rr = match g.ref_or_rev {
        Some(x) => "/"@ + x,
        None => Seq::<char>::empty(),
    };
    let r = render_type(t);
    assert(r == pt + ":"@ + g.owner + "/"@ + g.repo + rr);
    let s = r + tail;
    let j = pt.len() as int;
    let o0 = j + 1;
    let oe = o0 + g.owner.len();
    let r0 = oe + 1;
    let re = r0 + g.repo.len();
    assert(s.subrange(0, j) =~= pt);
    lemma_platform_at(s, g.platform);
    assert(s[0] == pt[0]);
    lemma_differs_at(s, 0, "path:"@, 0);
    assert(s[j] == ':');
    assert(forge_lead(s, 0));
    assert(s.subrange(o0, oe) =~= g.owner);
    assert(s[oe] == '/');
    lemma_run(s, o0, g.owner, Stop::Segment);
    assert(s.subrange(r0, re) =~= g.repo);
    match g.ref_or_rev {
        Some(x) => {
            assert(s[re] == '/');
            lemma_run(s, r0, g.repo, Stop::Segment);
            let f0 = re + 1;
            let fe = f0 + x.len();
            assert(s.subrange(f0, fe) =~= x);
            assert(fe == r.len());
            lemma_run(s, f0, x, Stop::Query);
            assert(spec_forge_span(s, o0) == Ok::<(int, int, int), Seq<char>>((oe, re, fe)));
        },
        None => {
            assert(re == r.len());
            lemma_run(s, r0, g.repo, Stop::Segment);
            assert(spec_forge_span(s, o0) == Ok::<(int, int, int), Seq<char>>((oe, re, re)));
        },
    }
    assert(spec_forge(s, 0) == Ok::<(GitForgeView, int), ErrorView>((g, r.len() as int)));
}

/// A path reads back from its text.
proof fn lemma_dispatch_path(path: Seq<char>, tail: Seq<char>)
    requires
        type_wf(TypeView::Path { path }),
        tail_ok(tail),
    ensures
        spec_dispatch(path + tail, 0) == Ok::<(TypeView, int), ErrorView>(
            (TypeView::Path { path }, path.len() as int),
        ),
{
    lemma_lits();
    let s = path + tail;
    assert(s[0] == path[0]);
    lemma_differs_at(s, 0, "path:"@, 0);
    assert(s.subrange(0, path.len() as int) =~= path);
    lemma_run(s, 0, path, Stop::Query);
    assert(spec_path(s, 0) == spec_path_body(s, 0));
}

/// Where the kind tag stands, it is the one read.
proof fn lemma_resource_type_at(s: Seq<char>, k: ResourceType)
    requires
        s.len() > resource_text(k).len(),
        s.subrange(0, resource_text(k).len() as int) == resource_text(k),
    ensures
        spec_resource_type(s, 0) == Some((k, resource_text(k).len() as int)),
{
    lemma_lits();
    let kt = resource_text(k);
    assert(s[0] == kt[0]) by {
        assert(s.subrange(0, kt.len() as int)[0] == s[0]);
    }
    match k {
        ResourceType::Git => {},
        ResourceType::Mercurial => {
            lemma_differs_at(s, 0, "git"@, 0);
        },
        ResourceType::File => {
            lemma_differs_at(s, 0, "git"@, 0);
            lemma_differs_at(s, 0, "hg"@, 0);
        },
        ResourceType::Tarball => {
            lemma_differs_at(s, 0, "git"@, 0);
            lemma_differs_at(s, 0, "hg"@, 0);
            lemma_differs_at(s, 0, "file"@, 0);
        },
    }
}

/// Where the transport tag stands, followed by `:`, it is the one read.
proof fn lemma_transport_at(s: Seq<char>, j: int, t: TransportLayer)
    requires
        0 <= j,
        s.len() > j + transport_text(t).len(),
        s.subrange(j, j + transport_text(t).len()) == transport_text(t),
        s[j + transport_text(t).len()] == ':',
    ensures
        spec_transport(s, j) == Some((t, j + transport_text(t).len())),
{
    lemma_lits();
    let tt = transport_text(t);
    assert(s[j] == tt[0]) by {
        assert(s.subrange(j, j + tt.len())[0] == s[j]);
    }
    match t {
        TransportLayer::Https => {},
        TransportLayer::Http => {
            lemma_differs_at(s, j, "https"@, 4);
        },
        TransportLayer::Ssh => {
            lemma_differs_at(s, j, "https"@, 0);
            lemma_differs_at(s, j, "http"@, 0);
        },
        TransportLayer::File => {
            lemma_differs_at(s, j, "https"@, 0);
            lemma_differs_at(s, j, "http"@, 0);
            lemma_differs_at(s, j, "ssh"@, 0);
        },
    }
}

/// The lead tags of the other forms do not stand at the start of a
/// resource's text.
proof fn lemma_resource_leads(s: Seq<char>, k: ResourceType)
    requires
        s.len() > resource_text(k).len(),
        s.subrange(0, resource_text(k).len() as int) == resource_text(k),
        s[resource_text(k).len() as int] == '+' || s[resource_text(k).len() as int] == ':',
    ensures
        !starts_at(s, 0, "path:"@),
        !char_at(s, 0, '/'),
        !char_at(s, 0, '.'),
        !forge_lead(s, 0),
        !starts_at(s, 0, "flake:"@),
        !plain_lead(s, 0),
        resource_lead(s, 0),
{
    lemma_lits();
    let kt = resource_text(k);
    assert(s[0] == kt[0]) by {
        assert(s.subrange(0, kt.len() as int)[0] == s[0]);
    }
    assert(s[1] == kt[1]) by {
        assert(s.subrange(0, kt.len() as int)[1] == s[1]);
    }
    lemma_differs_at(s, 0, "path:"@, 0);
    lemma_resource_type_at(s, k);
    if k == ResourceType::Git {
        lemma_differs_at(s, 0, "github"@, 3);
        lemma_differs_at(s, 0, "gitlab"@, 3);
        lemma_differs_at(s, 0, "sourcehut"@, 0);
        lemma_differs_at(s, 0, "flake:"@, 0);
        lemma_differs_at(s, 0, "https"@, 0);
        lemma_differs_at(s, 0, "http"@, 0);
    } else if k == ResourceType::Mercurial {
        lemma_differs_at(s, 0, "github"@, 0);
        lemma_differs_at(s, 0, "gitlab"@, 0);
        lemma_differs_at(s, 0, "sourcehut"@, 0);
        lemma_differs_at(s, 0, "flake:"@, 0);
        lemma_differs_at(s, 0, "https"@, 1);
        lemma_differs_at(s, 0, "http"@, 1);
    } else if k == ResourceType::File {
        lemma_differs_at(s, 0, "github"@, 0);
        lemma_differs_at(s, 0, "gitlab"@, 0);
        lemma_differs_at(s, 0, "sourcehut"@, 0);
        lemma_differs_at(s, 0, "flake:"@, 1);
        lemma_differs_at(s, 0, "https"@, 0);
        lemma_differs_at(s, 0, "http"@, 0);
    } else {
        lemma_differs_at(s, 0, "github"@, 0);
        lemma_differs_at(s, 0, "gitlab"@, 0);
        lemma_differs_at(s, 0, "sourcehut"@, 0);
        lemma_differs_at(s, 0, "flake:"@, 0);
        lemma_differs_at(s, 0, "https"@, 0);
        lemma_differs_at(s, 0, "http"@, 0);
    }
}

/// A resource reads back from its text.
#[verifier::rlimit(100)]
proof fn lemma_dispatch_resource(u: ResourceView, tail: Seq<char>)
    requires
        type_wf(TypeView::Resource(u)),
        tail_ok(tail),
    ensures
        spec_dispatch(render_type(TypeView::Resource(u)) + tail, 0) == Ok::<
            (TypeView, int),
            ErrorView,
        >((TypeView::Resource(u), render_type(TypeView::Resource(u)).len() as int)),
{
    lemma_lits();
    let t = TypeView::Resource(u);
    let kt = resource_text(u.res_type);
    let tr = match u.transport_type {
        Some(tl) => "+"@ + transport_text(tl),
        None => Seq::<char>::empty(),
    };
    let r = render_type(t);
    assert(r == kt + tr + "://"@ + u.location);
    let s = r + tail;
    let j = kt.len() as int;
    let j2 = j + tr.len();
    let e = j2 + 3 + u.location.len();
    assert(s.subrange(0, j) =~= kt);
    assert(s.subrange(j2, j2 + 3) =~= "://"@);
    assert(s.subrange(j2 + 3, e) =~= u.location);
    assert(e == r.len());
    lemma_run(s, j2 + 3, u.location, Stop::Query);
    match u.transport_type {
        Some(tl) => {
            let tt = transport_text(tl);
            assert(s[j] == '+');
            assert(s.subrange(j + 1, j + 1 + tt.len()) =~= tt);
            assert(s[j + 1 + tt.len()] == ':');
            lemma_transport_at(s, j + 1, tl);
            lemma_resource_leads(s, u.res_type);
            assert(spec_location(s, j2, u.res_type, Some(tl)) == Ok::<
                (ResourceView, int),
                ErrorView,
            >((u, e)));
        },
        None => {
            assert(s[j] == ':');
            lemma_resource_leads(s, u.res_type);
            assert(spec_location(s, j2, u.res_type, None) == Ok::<(ResourceView, int), ErrorView>(
                (u, e),
            ));
        },
    }
    assert(spec_resource(s, 0) == Ok::<(ResourceView, int), ErrorView>((u, e)));
}

/// The text of a bare id: id characters up to `n`, then `/`, `?` or the end.
pub open spec fn id_text(s: Seq<char>, n: int) -> bool {
    &&& 0 < n <= s.len()
    &&& forall|k: int| 0 <= k < n ==> is_id_char(#[trigger] s[k])
    &&& (n == s.len() || s[n] == '/' || s[n] == '?')
}

/// A tag of letters that stands at the start of an id's text ends within
/// the id, so the character after it is no `:` or `+`.
proof fn lemma_letters_tag(s: Seq<char>, n: int, p: Seq<char>)
    requires
        id_text(s, n),
        forall|k: int| 0 <= k < p.len() ==> is_alpha(#[trigger] p[k]),
        starts_at(s, 0, p),
    ensures
        p.len() <= n,
        !char_at(s, p.len() as int, ':'),
        !char_at(s, p.len() as int, '+'),
{
    if p.len() > n {
        assert(s.subrange(0, p.len() as int)[n] == s[n]);
        assert(is_alpha(p[n]));
    }
}

/// A tag of letters and a `:` does not stand at the start of an id's text.
proof fn lemma_colon_tag(s: Seq<char>, n: int, p: Seq<char>)
    requires
        id_text(s, n),
        p.len() >= 1,
        p[p.len() - 1] == ':',
        forall|k: int| 0 <= k < p.len() - 1 ==> is_alpha(#[trigger] p[k]),
    ensures
        !starts_at(s, 0, p),
{
    if starts_at(s, 0, p) {
        let m = p.len() - 1;
        if m > n {
            assert(s.subrange(0, p.len() as int)[n] == s[n]);
            assert(is_alpha(p[n]));
        } else {
            assert(s.subrange(0, p.len() as int)[m] == s[m]);
        }
    }
}

/// What a registry id's text needs beyond `type_wf` to read back as a bare
/// id: its ref-or-rev holds no `:`, and the whole text (parameters
/// included) holds at most one `/`.
pub open spec fn indirect_reads_back(t: TypeView, s: Seq<char>) -> bool {
    match t {
        TypeView::Indirect { id, ref_or_rev } => {
            &&& match ref_or_rev {
                Some(x) => free_of(x, Stop::Tag),
                None => true,
            }
            &&& !two_slashes(s, 0)
        },
        _ => true,
    }
}

/// A registry id reads back from its text.
#[verifier::rlimit(100)]
proof fn lemma_dispatch_indirect(id: Seq<char>, rr: Option<Seq<char>>, tail: Seq<char>)
    requires
        type_wf(TypeView::Indirect { id, ref_or_rev: rr }),
        tail_ok(tail),
        indirect_reads_back(
            TypeView::Indirect { id, ref_or_rev: rr },
            render_type(TypeView::Indirect { id, ref_or_rev: rr }) + tail,
        ),
    ensures
        spec_dispatch(render_type(TypeView::Indirect { id, ref_or_rev: rr }) + tail, 0) == Ok::<
            (TypeView, int),
            ErrorView,
        >(
            (
                TypeView::Indirect { id, ref_or_rev: rr },
                render_type(TypeView::Indirect { id, ref_or_rev: rr }).len() as int,
            ),
        ),
{
    lemma_lits();
    let t = TypeView::Indirect { id, ref_or_rev: rr };
    let r = render_type(t);
    let s = r + tail;
    let n = id.len() as int;
    assert(s.subrange(0, n) =~= id);
    assert forall|k: int| 0 <= k < n implies is_id_char(#[trigger] s[k]) by {
        assert(s[k] == id[k]);
    }
    assert(id_text(s, n));
    assert(s[0] == id[0]);
    lemma_colon_tag(s, n, "path:"@);
    lemma_colon_tag(s, n, "flake:"@);
    if starts_at(s, 0, "github"@) {
        lemma_letters_tag(s, n, "github"@);
    } else if starts_at(s, 0, "gitlab"@) {
        lemma_letters_tag(s, n, "gitlab"@);
    } else if starts_at(s, 0, "sourcehut"@) {
        lemma_letters_tag(s, n, "sourcehut"@);
    }
    assert(!forge_lead(s, 0));
    if starts_at(s, 0, "https"@) {
        lemma_letters_tag(s, n, "https"@);
    }
    if starts_at(s, 0, "http"@) {
        lemma_letters_tag(s, n, "http"@);
    }
    assert(!plain_lead(s, 0));
    if starts_at(s, 0, "git"@) {
        lemma_letters_tag(s, n, "git"@);
    } else if starts_at(s, 0, "hg"@) {
        lemma_letters_tag(s, n, "hg"@);
    } else if starts_at(s, 0, "file"@) {
        lemma_letters_tag(s, n, "file"@);
    } else if starts_at(s, 0, "tarball"@) {
        lemma_letters_tag(s, n, "tarball"@);
    }
    assert(!resource_lead(s, 0));
    assert(free_of(r, Stop::Tag)) by {
        assert forall|k: int| 0 <= k < r.len() implies !Stop::Tag.at(#[trigger] r[k]) by {
            if k < n {
                assert(r[k] == id[k]);
            } else if k > n {
                let x = rr->Some_0;
                assert(r[k] == x[k - n - 1]);
            }
        }
    }
    assert(s.subrange(0, r.len() as int) =~= r);
    lemma_run(s, 0, r, Stop::Tag);
    lemma_run(s, 0, id, Stop::NonId);
    match rr {
        Some(x) => {
            assert(s[n] == '/');
            assert(s.subrange(n + 1, n + 1 + x.len()) =~= x);
            lemma_run(s, n + 1, x, Stop::Query);
        },
        None => {},
    }
    assert(spec_bare_indirect(s, 0) == spec_indirect_body(s, 0));
    assert(spec_indirect_body(s, 0) == Ok::<(TypeView, int), ErrorView>((t, r.len() as int)));
}

/// Each well-formed reference type reads back from its text, followed by
/// nothing or by parameters.
proof fn lemma_dispatch_render(t: TypeView, tail: Seq<char>)
    requires
        type_wf(t),
        tail_ok(tail),
        indirect_reads_back(t, render_type(t) + tail),
    ensures
        spec_dispatch(render_type(t) + tail, 0) == Ok::<(TypeView, int), ErrorView>(
            (t, render_type(t).len() as int),
        ),
{
    match t {
        TypeView::Resource(u) => lemma_dispatch_resource(u, tail),
        TypeView::GitForge(g) => lemma_dispatch_forge(g, tail),
        TypeView::Indirect { id, ref_or_rev } => lemma_dispatch_indirect(id, ref_or_rev, tail),
        TypeView::Path { path } => lemma_dispatch_path(path, tail),
        TypeView::Unset => {},
    }
}

/// A well-formed record with an empty text is the empty record.
proof fn lemma_no_pairs(p: ParamsView)
    requires
        params_wf(p),
        render_params(p).len() == 0,
    ensures
        p == empty_params(),
{
    crate::location_params::lemma_join_empty(param_pairs(p));
    assert(p.arbitrary =~= Seq::<(Seq<char>, Seq<char>)>::empty());
}

/// A reference value that the grammar can produce: no legacy marker, a
/// well-formed type and well-formed parameters.
pub open spec fn well_formed(f: FlakeRefView) -> bool {
    &&& f.flake is None
    &&& type_wf(f.kind)
    &&& params_wf(f.params)
}

/// Round trip: rendering a well-formed reference and parsing the text gives
/// the reference back, wherever the text passes the sanitation checks and,
/// for a registry id, reads back as a bare id.
pub proof fn lemma_round_trip(f: FlakeRefView)
    requires
        well_formed(f),
        sanitary(render(f)),
        indirect_reads_back(f.kind, render(f)),
    ensures
        spec_parse(render(f)) == Ok::<FlakeRefView, ErrorView>(f),
{
    lemma_lits();
    let r = render_type(f.kind);
    let ps = render_params(f.params);
    let s = render(f);
    if ps.len() == 0 {
        lemma_no_pairs(f.params);
        assert(s =~= r + Seq::<char>::empty());
        lemma_dispatch_render(f.kind, Seq::<char>::empty());
        assert(spec_flake_ref(s, 0) == Ok::<(FlakeRefView, int), ErrorView>(
            (f, r.len() as int),
        ));
    } else {
        let tail = "?"@ + ps;
        assert(s =~= r + tail);
        lemma_dispatch_render(f.kind, tail);
        assert(s[r.len() as int] == '?');
        assert(s.subrange(r.len() + 1int, s.len() as int) =~= ps);
        lemma_params_round_trip(s, r.len() + 1int, f.params);
        assert(spec_flake_ref(s, 0) == Ok::<(FlakeRefView, int), ErrorView>(
            (f, s.len() as int),
        ));
    }
}

/// A run that `scan` finds is free of the stop characters.
proof fn lemma_run_free(s: Seq<char>, i: int, stop: Stop)
    requires
        0 <= i <= s.len(),
    ensures
        i <= scan(s, i, stop) <= s.len(),
        free_of(s.subrange(i, scan(s, i, stop)), stop),
{
    lemma_scan(s, i, stop);
    let e = scan(s, i, stop);
    assert forall|k: int| 0 <= k < e - i implies !stop.at(#[trigger] s.subrange(i, e)[k]) by {
        assert(s.subrange(i, e)[k] == s[i + k]);
    }
}

proof fn lemma_path_body_wf(s: Seq<char>, i: int)
    requires
        0 <= i <= s.len(),
        spec_path_body(s, i) is Ok,
    ensures
        type_wf(spec_path_body(s, i)->Ok_0.0),
{
    lemma_run_free(s, i, Stop::Query);
    let e = scan(s, i, Stop::Query);
    assert(char_at(s, i, '/') || char_at(s, i, '.'));
    lemma_scan(s, i, Stop::Query);
    assert(e > i);
    assert(s.subrange(i, e)[0] == s[i]);
}

proof fn lemma_indirect_wf(s: Seq<char>, i: int)
    requires
        0 <= i <= s.len(),
        spec_indirect_body(s, i) is Ok,
    ensures
        type_wf(spec_indirect_body(s, i)->Ok_0.0),
{
    lemma_scan(s, i, Stop::NonId);
    let ie = scan(s, i, Stop::NonId);
    let id = s.subrange(i, ie);
    assert forall|k: int| 0 <= k < id.len() implies is_id_char(#[trigger] id[k]) by {
        assert(id[k] == s[i + k]);
    }
    assert(id[0] == s[i]);
    if char_at(s, ie, '/') {
        lemma_run_free(s, ie + 1, Stop::Query);
    }
}

proof fn lemma_forge_wf(s: Seq<char>, i: int)
    requires
        0 <= i <= s.len(),
        spec_forge(s, i) is Ok,
    ensures
        type_wf(TypeView::GitForge(spec_forge(s, i)->Ok_0.0)),
{
    lemma_lits();
    let (p, j) = spec_platform(s, i)->Some_0;
    lemma_run_free(s, j + 1, Stop::Segment);
    let oe = scan(s, j + 1, Stop::Segment);
    lemma_run_free(s, oe + 1, Stop::Segment);
    let re = scan(s, oe + 1, Stop::Segment);
    if char_at(s, re, '/') {
        lemma_run_free(s, re + 1, Stop::Query);
    }
}

/// Every reference type that the dispatcher reads is well-formed.
proof fn lemma_dispatch_wf(s: Seq<char>, i: int)
    requires
        0 <= i <= s.len(),
        spec_dispatch(s, i) is Ok,
    ensures
        type_wf(spec_dispatch(s, i)->Ok_0.0),
{
    lemma_lits();
    if starts_at(s, i, "path:"@) || char_at(s, i, '/') || char_at(s, i, '.') {
        if starts_at(s, i, "path:"@) {
            if starts_at(s, i + 5, "//"@) {
                if char_at(s, i + 7, '/') {
                    lemma_path_body_wf(s, i + 7);
                }
            } else {
                if char_at(s, i + 5, '/') {
                    lemma_path_body_wf(s, i + 5);
                }
            }
        } else {
            lemma_path_body_wf(s, i);
        }
    } else if forge_lead(s, i) {
        lemma_forge_wf(s, i);
    } else if starts_at(s, i, "flake:"@) {
        lemma_indirect_wf(s, i + 6);
    } else if plain_lead(s, i) {
        let j = if starts_at(s, i, "https"@) && char_at(s, i + 5, ':') {
            i + 5
        } else {
            i + 4
        };
        lemma_run_free(s, j + 3, Stop::Query);
    } else if resource_lead(s, i) {
        let (k, j) = spec_resource_type(s, i)->Some_0;
        if char_at(s, j, '+') {
            let (t, j2) = spec_transport(s, j + 1)->Some_0;
            lemma_run_free(s, j2 + 3, Stop::Query);
        } else {
            lemma_run_free(s, j + 3, Stop::Query);
        }
    } else {
        lemma_indirect_wf(s, i);
    }
}

/// Reading a pair keeps a record well-formed.
proof fn lemma_with_wf(acc: ParamsView, k: Seq<char>, v: Seq<char>)
    requires
        params_wf(acc),
        free_of(k, Stop::Key),
        free_of(v, Stop::Value),
    ensures
        params_wf(acc.with(k, v)),
{
    let w = acc.with(k, v);
    if !is_known_key(k) {
        assert forall|i: int| 0 <= i < w.arbitrary.len() implies !is_known_key(
            #[trigger] w.arbitrary[i].0,
        ) && free_of(w.arbitrary[i].0, Stop::Key) && free_of(w.arbitrary[i].1, Stop::Value) by {
            if i < acc.arbitrary.len() {
                assert(w.arbitrary[i] == acc.arbitrary[i]);
            }
        }
    }
}

/// Every record that reading parameters gives is well-formed.
proof fn lemma_params_wf(s: Seq<char>, i: int, acc: ParamsView)
    requires
        params_wf(acc),
    ensures
        params_wf(spec_params(s, i, acc).0),
    decreases s.len() - i,
{
    if !(i < 0 || i >= s.len() || s[i] == '#') {
        let ks = if s[i] == '&' {
            i + 1
        } else {
            i
        };
        lemma_run_free(s, ks, Stop::Key);
        let ke = scan(s, ks, Stop::Key);
        if char_at(s, ke, '=') {
            lemma_run_free(s, ke + 1, Stop::Value);
            let ve = scan(s, ke + 1, Stop::Value);
            if !(ve <= i || ve > s.len()) {
                lemma_with_wf(acc, s.subrange(ks, ke), s.subrange(ke + 1, ve));
                lemma_params_wf(s, ve, acc.with(s.subrange(ks, ke), s.subrange(ke + 1, ve)));
            }
        }
    }
}

/// Every reference that the parser gives is well-formed.
pub proof fn lemma_parse_well_formed(s: Seq<char>)
    requires
        spec_parse(s) is Ok,
    ensures
        well_formed(spec_parse(s)->Ok_0),
{
    lemma_dispatch_wf(s, 0);
    let (t, j) = spec_dispatch(s, 0)->Ok_0;
    if char_at(s, j, '?') {
        lemma_params_wf(s, j + 1, empty_params());
    }
}

/// Parsing, rendering and parsing again gives what the first parse gave,
/// wherever the rendered text passes the sanitation checks and, for a
/// registry id, reads back as a bare id.
pub proof fn lemma_parse_render_parse(s: Seq<char>)
    requires
        spec_parse(s) is Ok,
        sanitary(render(spec_parse(s)->Ok_0)),
        indirect_reads_back(spec_parse(s)->Ok_0.kind, render(spec_parse(s)->Ok_0)),
    ensures
        spec_parse(render(spec_parse(s)->Ok_0)) == spec_parse(s),
{
    lemma_parse_well_formed(s);
    lemma_round_trip(spec_parse(s)->Ok_0);
}

/// A forge shorthand with a ref-or-rev is read strictly further than the
/// same shorthand without one: `github:owner/repo/rev` against
/// `github:owner/repo`, for any platform, owner, repo and ref-or-rev that
/// the shorthand can hold.
pub proof fn lemma_ref_reads_further(
    p: GitForgePlatform,
    owner: Seq<char>,
    repo: Seq<char>,
    rev: Seq<char>,
)
    requires
        owner.len() > 0,
        free_of(owner, Stop::Segment),
        repo.len() > 0,
        free_of(repo, Stop::Segment),
        rev.len() > 0,
        free_of(rev, Stop::Query),
    ensures
        ({
            let a = platform_text(p) + ":"@ + owner + "/"@ + repo;
            let b = a + "/"@ + rev;
            &&& spec_flake_ref(a, 0) is Ok
            &&& spec_flake_ref(b, 0) is Ok
            &&& spec_flake_ref(a, 0)->Ok_0.1 == a.len()
            &&& spec_flake_ref(b, 0)->Ok_0.1 == b.len()
            &&& spec_flake_ref(b, 0)->Ok_0.1 > spec_flake_ref(a, 0)->Ok_0.1
        }),
{
    let ga = GitForgeView { platform: p, owner, repo, ref_or_rev: None };
    let gb = GitForgeView { platform: p, owner, repo, ref_or_rev: Some(rev) };
    let a = platform_text(p) + ":"@ + owner + "/"@ + repo;
    let b = a + "/"@ + rev;
    assert(render_type(TypeView::GitForge(ga)) =~= a);
    assert(render_type(TypeView::GitForge(gb)) =~= b);
    lemma_dispatch_forge(ga, Seq::<char>::empty());
    lemma_dispatch_forge(gb, Seq::<char>::empty());
    assert(a + Seq::<char>::empty() =~= a);
    assert(b + Seq::<char>::empty() =~= b);
}

} // verus!
