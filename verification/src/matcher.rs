//! The fuzzy ranking of a recursive walk for the file-search picker, with
//! the skim algorithm of the `fuzzy-matcher` crate behind a small seam.

use vstd::prelude::*;
use fuzzy_matcher::FuzzyMatcher;
use crate::path::{path_less, path_lt, path_strip_prefix, strip_prefix};
use crate::state::views;

verus! {

/// How many ranked paths are kept.
pub const RANK_CAP: usize = 500;

#[verifier::external_type_specification]
#[verifier::external_body]
pub struct ExSkimMatcherV2(fuzzy_matcher::skim::SkimMatcherV2);

/// What the skim matcher (default configuration) scores for a choice and a
/// pattern: `None` when the pattern does not match.
pub uninterp spec fn skim_score(choice: Seq<char>, pattern: Seq<char>) -> Option<i64>;

/// `SkimMatcherV2::default`.
#[verifier::external_body]
fn default_skim() -> fuzzy_matcher::skim::SkimMatcherV2 {
    fuzzy_matcher::skim::SkimMatcherV2::default()
}

/// `FuzzyMatcher::fuzzy_match` of the skim matcher (built only by
/// `SkimMatcher::new`, in its default configuration): the score of
/// `pattern` in `choice`, or `None`. Its caches are buffers only, so the
/// result is named by `skim_score`.
#[verifier::external_body]
fn skim_match(m: &SkimMatcher, choice: &str, pattern: &str) -> (r: Option<i64>)
    ensures
        r == skim_score(choice@, pattern@),
{
    m.inner.fuzzy_match(choice, pattern)
}

/// The scoring seam of the ranking: one shipped implementation.
pub trait MatcherBackend {
    /// What the backend scores `needle` in `haystack`.
    spec fn score_spec(&self, haystack: Seq<char>, needle: Seq<char>) -> Option<i64>;

    fn score(&self, haystack: &str, needle: &str) -> (r: Option<i64>)
        ensures
            r == self.score_spec(haystack@, needle@);
}

/// The skim matcher, in its default configuration.
pub struct SkimMatcher {
    inner: fuzzy_matcher::skim::SkimMatcherV2,
}

impl SkimMatcher {
    /// The skim matcher in its default configuration.
    pub fn new() -> (m: SkimMatcher) {
        SkimMatcher { inner: default_skim() }
    }
}

impl MatcherBackend for SkimMatcher {
    open spec fn score_spec(&self, haystack: Seq<char>, needle: Seq<char>) -> Option<i64> {
        skim_score(haystack, needle)
    }

    fn score(&self, haystack: &str, needle: &str) -> (r: Option<i64>) {
        skim_match(self, haystack, needle)
    }
}

// --- ordering ----------------------------------------------------------------

/// `a` ranks before `b`: a higher score, or the same score and an earlier path.
pub open spec fn before(a: (i64, Seq<char>), b: (i64, Seq<char>)) -> bool {
    a.0 > b.0 || (a.0 == b.0 && path_less(a.1, b.1))
}

/// `x` inserted before the first element it ranks before (stable).
pub open spec fn ins(s: Seq<(i64, Seq<char>)>, x: (i64, Seq<char>)) -> Seq<(i64, Seq<char>)>
    decreases s.len(),
{
    if s.len() == 0 {
        seq![x]
    } else if before(x, s[0]) {
        seq![x] + s
    } else {
        seq![s[0]] + ins(s.drop_first(), x)
    }
}

/// `items[0..n]` in rank order, equal items keeping their order.
pub open spec fn ranked(items: Seq<(i64, Seq<char>)>, n: int) -> Seq<(i64, Seq<char>)>
    decreases n,
{
    if n <= 0 { Seq::empty() } else { ins(ranked(items, n - 1), items[n - 1]) }
}

/// The scored paths: those whose display path (relative to `root` when
/// under it) the backend scores, with their scores, in walk order.
pub open spec fn scored(score: spec_fn(Seq<char>) -> Option<i64>, root: Seq<char>, paths: Seq<Seq<char>>, n: int) -> Seq<(i64, Seq<char>)>
    decreases n,
{
    if n <= 0 {
        Seq::empty()
    } else {
        let p = paths[n - 1];
        let rel = match path_strip_prefix(p, root) {
            Some(r) => r,
            None => p,
        };
        match score(rel) {
            Some(s) => scored(score, root, paths, n - 1).push((s, p)),
            None => scored(score, root, paths, n - 1),
        }
    }
}

/// The first `RANK_CAP` of a sequence.
pub open spec fn capped<T>(s: Seq<T>) -> Seq<T> {
    first_n(s, RANK_CAP as int)
}

/// What `rank_paths` gives: with an empty query the paths in path order;
/// else the scored paths by score (best first), then path; at most the cap.
pub open spec fn rank_spec(score: spec_fn(Seq<char>) -> Option<i64>, root: Seq<char>, paths: Seq<Seq<char>>, query: Seq<char>) -> Seq<Seq<char>> {
    if query.len() == 0 {
        let r = capped(ranked(Seq::new(paths.len(), |i: int| (0i64, paths[i])), paths.len() as int));
        Seq::new(r.len(), |i: int| r[i].1)
    } else {
        let s = scored(score, root, paths, paths.len() as int);
        let r = capped(ranked(s, s.len() as int));
        Seq::new(r.len(), |i: int| r[i].1)
    }
}

/// Scores never rise along a ranked list.
pub open spec fn best_first(s: Seq<(i64, Seq<char>)>) -> bool {
    forall|i: int, j: int| 0 <= i < j < s.len() ==> #[trigger] s[i].0 >= #[trigger] s[j].0
}

proof fn lemma_ins_bounded(s: Seq<(i64, Seq<char>)>, x: (i64, Seq<char>), c: int)
    requires
        forall|i: int| 0 <= i < s.len() ==> #[trigger] s[i].0 <= c,
        x.0 <= c,
    ensures
        forall|i: int| 0 <= i < ins(s, x).len() ==> #[trigger] ins(s, x)[i].0 <= c,
    decreases s.len(),
{
    lemma_ins_len(s, x);
    if s.len() > 0 && !before(x, s[0]) {
        let d = s.drop_first();
        assert forall|i: int| 0 <= i < d.len() implies #[trigger] d[i].0 <= c by {
            assert(d[i] == s[i + 1]);
        }
        lemma_ins_bounded(d, x, c);
        let r = ins(s, x);
        assert forall|i: int| 0 <= i < r.len() implies #[trigger] r[i].0 <= c by {
            if i > 0 {
                assert(r[i] == ins(d, x)[i - 1]);
            }
        }
    } else if s.len() > 0 {
        let r = ins(s, x);
        assert forall|i: int| 0 <= i < r.len() implies #[trigger] r[i].0 <= c by {
            if i > 0 {
                assert(r[i] == s[i - 1]);
            }
        }
    }
}

proof fn lemma_ins_best_first(s: Seq<(i64, Seq<char>)>, x: (i64, Seq<char>))
    requires
        best_first(s),
    ensures
        best_first(ins(s, x)),
    decreases s.len(),
{
    lemma_ins_len(s, x);
    let r = ins(s, x);
    if s.len() == 0 {
    } else if before(x, s[0]) {
        assert forall|i: int, j: int| 0 <= i < j < r.len() implies #[trigger] r[i].0 >= #[trigger] r[j].0 by {
            assert(r[j] == s[j - 1]);
            if i > 0 {
                assert(r[i] == s[i - 1]);
            } else {
                assert(s[0].0 >= s[j - 1].0 || j - 1 == 0);
            }
        }
    } else {
        let d = s.drop_first();
        assert forall|i: int, j: int| 0 <= i < j < d.len() implies #[trigger] d[i].0 >= #[trigger] d[j].0 by {
            assert(d[i] == s[i + 1] && d[j] == s[j + 1]);
        }
        lemma_ins_best_first(d, x);
        assert forall|i: int| 0 <= i < d.len() implies #[trigger] d[i].0 <= s[0].0 by {
            assert(d[i] == s[i + 1]);
        }
        lemma_ins_bounded(d, x, s[0].0 as int);
        let t = ins(d, x);
        assert(r == seq![s[0]] + t);
        assert forall|i: int, j: int| 0 <= i < j < r.len() implies #[trigger] r[i].0 >= #[trigger] r[j].0 by {
            assert(r[j] == t[j - 1]);
            if i > 0 {
                assert(r[i] == t[i - 1]);
            }
        }
    }
}

/// The ranked list puts the best scores first: a score never rises along it.
pub proof fn law_ranked_best_first(items: Seq<(i64, Seq<char>)>, n: int)
    ensures
        best_first(ranked(items, n)),
    decreases n,
{
    if n > 0 {
        law_ranked_best_first(items, n - 1);
        lemma_ins_best_first(ranked(items, n - 1), items[n - 1]);
    }
}

/// With a query, the ranked paths are the scored paths best score first: the
/// i-th result is the path of the i-th kept scored pair, and the kept pairs'
/// scores never rise.
pub proof fn law_rank_paths_best_first(score: spec_fn(Seq<char>) -> Option<i64>, root: Seq<char>, paths: Seq<Seq<char>>, query: Seq<char>)
    requires
        query.len() > 0,
    ensures
        ({
            let s = scored(score, root, paths, paths.len() as int);
            let kept = capped(ranked(s, s.len() as int));
            &&& best_first(kept)
            &&& rank_spec(score, root, paths, query).len() == kept.len()
            &&& forall|i: int| 0 <= i < kept.len() ==> #[trigger] rank_spec(score, root, paths, query)[i] == kept[i].1
        }),
{
    let s = scored(score, root, paths, paths.len() as int);
    let r = ranked(s, s.len() as int);
    law_ranked_best_first(s, s.len() as int);
    let kept = capped(r);
    assert forall|i: int, j: int| 0 <= i < j < kept.len() implies #[trigger] kept[i].0 >= #[trigger] kept[j].0 by {
        assert(kept[i] == r[i] && kept[j] == r[j]);
    }
}

proof fn lemma_ins_at(s: Seq<(i64, Seq<char>)>, x: (i64, Seq<char>), i: int)
    requires
        0 <= i <= s.len(),
        forall|j: int| 0 <= j < i ==> !before(x, #[trigger] s[j]),
        i < s.len() ==> before(x, s[i]),
    ensures
        ins(s, x) == s.take(i) + seq![x] + s.skip(i),
    decreases s.len(),
{
    if s.len() == 0 {
        assert(s.take(i) + seq![x] + s.skip(i) =~= seq![x]);
    } else if i == 0 {
        assert(s.take(0) + seq![x] + s.skip(0) =~= seq![x] + s);
    } else {
        let t = s.drop_first();
        assert forall|j: int| 0 <= j < i - 1 implies !before(x, #[trigger] t[j]) by {
            assert(t[j] == s[j + 1]);
        }
        lemma_ins_at(t, x, i - 1);
        assert(seq![s[0]] + (t.take(i - 1) + seq![x] + t.skip(i - 1)) =~= s.take(i) + seq![x] + s.skip(i));
    }
}

proof fn lemma_ins_capped(s: Seq<(i64, Seq<char>)>, x: (i64, Seq<char>), k: int)
    requires
        k >= 0,
    ensures
        first_n(ins(s, x), k) == first_n(ins(first_n(s, k), x), k),
    decreases s.len(), k,
{
    lemma_ins_len(s, x);
    lemma_ins_len(first_n(s, k), x);
    if k == 0 {
        assert(first_n(ins(s, x), 0) =~= Seq::<(i64, Seq<char>)>::empty());
        assert(first_n(ins(first_n(s, k), x), 0) =~= Seq::<(i64, Seq<char>)>::empty());
    } else if s.len() <= k {
        assert(first_n(s, k) =~= s);
    } else if before(x, s[0]) {
        assert(first_n(s, k)[0] == s[0]);
        assert(first_n(seq![x] + s, k) =~= seq![x] + s.take(k - 1));
        assert(first_n(seq![x] + s.take(k), k) =~= seq![x] + s.take(k - 1));
    } else {
        let t = s.drop_first();
        lemma_ins_capped(t, x, k - 1);
        lemma_ins_len(t, x);
        lemma_ins_len(first_n(t, k - 1), x);
        assert(s.take(k)[0] == s[0]);
        assert(s.take(k).drop_first() =~= first_n(t, k - 1));
        assert(first_n(seq![s[0]] + ins(t, x), k) =~= seq![s[0]] + first_n(ins(t, x), k - 1));
        assert(first_n(seq![s[0]] + ins(first_n(t, k - 1), x), k) =~= seq![s[0]] + first_n(ins(first_n(t, k - 1), x), k - 1));
    }
}

/// The first `k` of a sequence (all of it when shorter).
pub open spec fn first_n<T>(s: Seq<T>, k: int) -> Seq<T> {
    if s.len() > k { s.take(k) } else { s }
}

proof fn lemma_scored_prefix(score: spec_fn(Seq<char>) -> Option<i64>, root: Seq<char>, paths: Seq<Seq<char>>, k: int, m: int)
    requires
        0 <= k <= m,
    ensures
        scored(score, root, paths, k).len() <= scored(score, root, paths, m).len(),
        scored(score, root, paths, m).take(scored(score, root, paths, k).len() as int) == scored(score, root, paths, k),
    decreases m - k,
{
    if k == m {
        assert(scored(score, root, paths, m).take(scored(score, root, paths, k).len() as int) =~= scored(score, root, paths, k));
    } else {
        lemma_scored_prefix(score, root, paths, k, m - 1);
        let a = scored(score, root, paths, k);
        let b = scored(score, root, paths, m - 1);
        let c = scored(score, root, paths, m);
        assert(c.take(a.len() as int) =~= b.take(a.len() as int));
    }
}

proof fn lemma_ins_len(s: Seq<(i64, Seq<char>)>, x: (i64, Seq<char>))
    ensures
        ins(s, x).len() == s.len() + 1,
    decreases s.len(),
{
    if s.len() > 0 && !before(x, s[0]) {
        lemma_ins_len(s.drop_first(), x);
    }
}

/// The models of scored pairs.
pub open spec fn pair_views(v: Seq<(i64, String)>) -> Seq<(i64, Seq<char>)> {
    Seq::new(v.len(), |i: int| (v[i].0, v[i].1@))
}

fn ranks_before(a: &(i64, String), b: &(i64, String)) -> (r: bool)
    ensures
        r == before((a.0, a.1@), (b.0, b.1@)),
{
    a.0 > b.0 || (a.0 == b.0 && path_lt(a.1.as_str(), b.1.as_str()))
}

/// Fold `x` into the kept top list: insert it at its rank and keep the cap.
fn keep_top(top: &mut Vec<(i64, String)>, x: (i64, String))
    requires
        old(top)@.len() <= RANK_CAP,
    ensures
        pair_views(final(top)@) == capped(ins(pair_views(old(top)@), (x.0, x.1@))),
        final(top)@.len() <= RANK_CAP,
{
    let ghost s = pair_views(top@);
    let ghost xm = (x.0, x.1@);
    let mut i: usize = 0;
    while i < top.len() && !ranks_before(&x, &top[i])
        invariant
            i <= top@.len(),
            s == pair_views(top@),
            xm == (x.0, x.1@),
            forall|j: int| 0 <= j < i ==> !before(xm, #[trigger] s[j]),
        decreases top@.len() - i,
    {
        i = i + 1;
    }
    proof {
        lemma_ins_at(s, xm, i as int);
        lemma_ins_len(s, xm);
    }
    top.insert(i, x);
    assert(pair_views(top@) =~= s.take(i as int) + seq![xm] + s.skip(i as int));
    if top.len() > RANK_CAP {
        let _ = top.pop();
        assert(pair_views(top@) =~= ins(s, xm).take(RANK_CAP as int));
    } else {
        assert(pair_views(top@) =~= ins(s, xm));
    }
}

/// Rank walked paths by their display path (relative to `root`) against the
/// query: best score first, then path order; an empty query keeps path order.
/// At most the cap are kept.
pub fn rank_paths<M: MatcherBackend>(matcher: &M, root: &str, paths: Vec<String>, query: &str) -> (r: Vec<String>)
    ensures
        views(r@) == rank_spec(|c: Seq<char>| matcher.score_spec(c, query@), root@, views(paths@), query@),
{
    let ghost score = |c: Seq<char>| matcher.score_spec(c, query@);
    let ghost pv = views(paths@);
    let empty = query.is_empty();
    let ghost items = if empty {
        Seq::new(pv.len(), |i: int| (0i64, pv[i]))
    } else {
        scored(score, root@, pv, pv.len() as int)
    };
    let mut top: Vec<(i64, String)> = Vec::new();
    let mut k: usize = 0;
    let ghost mut n: int = 0;
    assert(pair_views(top@) =~= capped(ranked(items, 0)));
    while k < paths.len()
        invariant
            k <= paths@.len(),
            pv == views(paths@),
            empty == (query@.len() == 0),
            score == (|c: Seq<char>| matcher.score_spec(c, query@)),
            items == (if empty { Seq::new(pv.len(), |i: int| (0i64, pv[i])) } else { scored(score, root@, pv, pv.len() as int) }),
            empty ==> n == k,
            !empty ==> items.take(n) == scored(score, root@, pv, k as int),
            0 <= n <= items.len(),
            top@.len() <= RANK_CAP,
            pair_views(top@) == capped(ranked(items, n)),
        decreases paths@.len() - k,
    {
        let p = &paths[k];
        let entry: Option<(i64, String)> = if empty {
            Some((0i64, p.clone()))
        } else {
            let rel = match strip_prefix(p.as_str(), root) {
                Some(r) => r,
                None => p.clone(),
            };
            match matcher.score(rel.as_str(), query) {
                Some(s) => Some((s, p.clone())),
                None => None,
            }
        };
        match entry {
            Some(x) => {
                proof {
                    if !empty {
                        lemma_scored_prefix(score, root@, pv, k + 1, pv.len() as int);
                        assert(scored(score, root@, pv, k + 1) == scored(score, root@, pv, k as int).push((x.0, x.1@)));
                        assert(items.take(n + 1) =~= scored(score, root@, pv, k + 1));
                        assert(items[n] == items.take(n + 1)[n]);
                    }
                    assert(items[n] == (x.0, x.1@));
                    lemma_ins_capped(ranked(items, n), (x.0, x.1@), RANK_CAP as int);
                }
                keep_top(&mut top, x);
                proof {
                    n = n + 1;
                }
            }
            None => {
                proof {
                    if !empty {
                        assert(scored(score, root@, pv, k + 1) == scored(score, root@, pv, k as int));
                    }
                }
            }
        }
        k = k + 1;
    }
    let mut out: Vec<String> = Vec::new();
    let mut j: usize = 0;
    while j < top.len()
        invariant
            j <= top@.len(),
            views(out@) == Seq::new(j as nat, |i: int| pair_views(top@)[i].1),
        decreases top@.len() - j,
    {
        let ghost before_out = views(out@);
        out.push(top[j].1.clone());
        assert(views(out@) =~= before_out.push(top@[j as int].1@));
        j = j + 1;
        assert(views(out@) =~= Seq::new(j as nat, |i: int| pair_views(top@)[i].1));
    }
    out
}

} // verus!
