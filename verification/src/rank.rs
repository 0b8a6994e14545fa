//! A small dependency-free subsequence fuzzy ranker for local candidate
//! pools: a candidate matches when the query is a subsequence of its label
//! (case-insensitively); matches are ordered by score, then label, stably.

use vstd::prelude::*;
use crate::mode::Candidate;
use crate::text::{chars_of, lowercase, seq_less, str_less, to_lowercase};

verus! {

/// The subsequence score of `needle` in `hay`, scanning from `hi` with
/// `ni` characters of the needle matched so far, the last match at `last`
/// (-1 for none) and `acc` points collected. Each match earns
/// `10 - min(position, 9)`, plus 5 when adjacent to the previous match.
pub open spec fn score_from(hay: Seq<char>, needle: Seq<char>, ni: int, hi: int, last: int, acc: int) -> Option<int>
    decreases needle.len() - ni, hay.len() - hi,
{
    if ni >= needle.len() {
        Some(acc)
    } else if hi >= hay.len() || hi < 0 {
        None
    } else if hay[hi] == needle[ni] {
        let bonus = if last >= 0 && hi == last + 1 { 5int } else { 0int };
        let pos = if hi < 9 { hi } else { 9 };
        score_from(hay, needle, ni + 1, hi + 1, hi, acc + bonus + 10 - pos)
    } else {
        score_from(hay, needle, ni, hi + 1, last, acc)
    }
}

pub open spec fn score_spec(hay: Seq<char>, needle: Seq<char>) -> Option<int> {
    score_from(hay, needle, 0, 0, -1, 0)
}

/// Scores `needle` against `hay`, or `None` when it is not a subsequence.
fn subseq_score(hay: &Vec<char>, needle: &Vec<char>) -> (r: Option<i128>)
    ensures
        match r {
            Some(v) => score_spec(hay@, needle@) == Some(v as int),
            None => score_spec(hay@, needle@) is None,
        },
{
    let mut hi: usize = 0;
    let mut score: i128 = 0;
    let mut last: i128 = -1;
    let mut ni: usize = 0;
    while ni < needle.len()
        invariant
            ni <= needle@.len(),
            hi <= hay@.len(),
            -1 <= last < hi,
            0 <= score <= 15 * ni,
            score_spec(hay@, needle@) == score_from(hay@, needle@, ni as int, hi as int, last as int, score as int),
        decreases needle@.len() - ni,
    {
        let nc = needle[ni];
        let mut found = false;
        while !found && hi < hay.len()
            invariant
                ni < needle@.len(),
                nc == needle@[ni as int],
                hi <= hay@.len(),
                -1 <= last < hi,
                0 <= score <= 15 * ni + (if found { 15int } else { 0int }),
                !found ==> score_spec(hay@, needle@) == score_from(hay@, needle@, ni as int, hi as int, last as int, score as int),
                found ==> score_spec(hay@, needle@) == score_from(hay@, needle@, ni + 1, hi as int, last as int, score as int),
            decreases hay@.len() - hi,
        {
            if hay[hi] == nc {
                let bonus: i128 = if last >= 0 && hi as i128 == last + 1 { 5 } else { 0 };
                let pos: i128 = if hi < 9 { hi as i128 } else { 9 };
                score = score + bonus + 10 - pos;
                last = hi as i128;
                found = true;
            }
            hi = hi + 1;
        }
        if !found {
            return None;
        }
        ni = ni + 1;
    }
    Some(score)
}

/// `x` goes strictly before `y`: a higher score, or an equal score and a
/// smaller label.
pub open spec fn before(x: (i128, Candidate), y: (i128, Candidate)) -> bool {
    x.0 > y.0 || (x.0 == y.0 && seq_less(x.1.label@, y.1.label@))
}

/// Stable insertion of `x`: after every element it does not go before.
pub open spec fn ins(s: Seq<(i128, Candidate)>, x: (i128, Candidate)) -> Seq<(i128, Candidate)>
    decreases s.len(),
{
    if s.len() == 0 {
        seq![x]
    } else if before(x, s[0]) {
        seq![x] + s
    } else {
        seq![s[0]] + ins(s.drop_first(), x)
    }
}

/// The scored matches of `pool`, ranked.
pub open spec fn ranked(pool: Seq<Candidate>, q: Seq<char>) -> Seq<(i128, Candidate)>
    decreases pool.len(),
{
    if pool.len() == 0 {
        Seq::empty()
    } else {
        let r = ranked(pool.drop_last(), q);
        match score_spec(lowercase(pool.last().label@), q) {
            Some(s) => ins(r, (s as i128, pool.last())),
            None => r,
        }
    }
}

/// What `fuzzy_rank` returns: the pool itself for an empty query, else the
/// ranked matches.
pub open spec fn fuzzy_rank_spec(pool: Seq<Candidate>, query: Seq<char>) -> Seq<Candidate> {
    if query.len() == 0 {
        pool
    } else {
        ranked(pool, lowercase(query)).map_values(|x: (i128, Candidate)| x.1)
    }
}

proof fn lemma_ins_at(s: Seq<(i128, Candidate)>, x: (i128, Candidate), j: int)
    requires
        0 <= j <= s.len(),
        forall|k: int| 0 <= k < j ==> !before(x, #[trigger] s[k]),
        j == s.len() || before(x, s[j]),
    ensures
        ins(s, x) == s.take(j) + seq![x] + s.skip(j),
    decreases j,
{
    if j == 0 {
        if s.len() == 0 {
            assert(s.take(0) + seq![x] + s.skip(0) =~= seq![x]);
        } else {
            assert(s.take(0) + seq![x] + s.skip(0) =~= seq![x] + s);
        }
    } else {
        let t = s.drop_first();
        assert forall|k: int| 0 <= k < j - 1 implies !before(x, #[trigger] t[k]) by {
            assert(t[k] == s[k + 1]);
        }
        if j < s.len() {
            assert(t[j - 1] == s[j]);
        }
        lemma_ins_at(t, x, j - 1);
        assert(!before(x, s[0]));
        assert(seq![s[0]] + (t.take(j - 1) + seq![x] + t.skip(j - 1)) =~= s.take(j) + seq![x] + s.skip(j));
    }
}

fn goes_before(x: &(i128, Candidate), y: &(i128, Candidate)) -> (r: bool)
    ensures
        r == before(*x, *y),
{
    x.0 > y.0 || (x.0 == y.0 && str_less(x.1.label.as_str(), y.1.label.as_str()))
}

fn insert_ranked(v: &mut Vec<(i128, Candidate)>, x: (i128, Candidate))
    ensures
        final(v)@ == ins(old(v)@, x),
{
    let mut j: usize = 0;
    while j < v.len() && !goes_before(&x, &v[j])
        invariant
            j <= v@.len(),
            forall|k: int| 0 <= k < j ==> !before(x, #[trigger] v@[k]),
        decreases v@.len() - j,
    {
        j = j + 1;
    }
    proof {
        lemma_ins_at(v@, x, j as int);
    }
    let ghost before_v = v@;
    v.insert(j, x);
    assert(v@ =~= before_v.take(j as int) + seq![x] + before_v.skip(j as int));
}

/// Ranks `pool` against `query`: the candidates whose lowercased label holds
/// the lowercased query as a subsequence, best score first, ties by label.
pub fn fuzzy_rank(pool: Vec<Candidate>, query: &str) -> (r: Vec<Candidate>)
    ensures
        r@ == fuzzy_rank_spec(pool@, query@),
{
    if query.is_empty() {
        return pool;
    }
    let lq = to_lowercase(query);
    let q = chars_of(lq.as_str());
    let ghost p = pool@;
    let mut rest = pool;
    let mut scored: Vec<(i128, Candidate)> = Vec::new();
    let mut i: usize = 0;
    let n = rest.len();
    assert(p.take(0) =~= Seq::<Candidate>::empty());
    while rest.len() > 0
        invariant
            n == p.len(),
            i + rest@.len() == n,
            rest@ == p.skip(i as int),
            q@ == lowercase(query@),
            scored@ == ranked(p.take(i as int), q@),
        decreases rest@.len(),
    {
        assert(rest@[0] == p[i as int]);
        let c = rest.remove(0);
        assert(p.take(i + 1).drop_last() =~= p.take(i as int));
        assert(p.take(i + 1).last() == c);
        let label = to_lowercase(c.label.as_str());
        let hay = chars_of(label.as_str());
        match subseq_score(&hay, &q) {
            Some(s) => {
                insert_ranked(&mut scored, (s, c));
            }
            None => {}
        }
        i = i + 1;
        assert(rest@ =~= p.skip(i as int));
    }
    assert(p.take(i as int) =~= p);
    let mut out: Vec<Candidate> = Vec::new();
    let ghost sv = scored@;
    let mut rest2 = scored;
    let ghost m = rest2@.len();
    while rest2.len() > 0
        invariant
            rest2@.len() <= m,
            rest2@ == sv.skip(m - rest2@.len()),
            m == sv.len(),
            out@ == sv.take(m - rest2@.len()).map_values(|x: (i128, Candidate)| x.1),
        decreases rest2@.len(),
    {
        let ghost k = m - rest2@.len();
        assert(rest2@[0] == sv[k]);
        let (_, c) = rest2.remove(0);
        out.push(c);
        assert(sv.take(k + 1).map_values(|x: (i128, Candidate)| x.1) =~= sv.take(k).map_values(|x: (i128, Candidate)| x.1).push(c));
        assert(rest2@ =~= sv.skip(m - rest2@.len()));
    }
    assert(sv.take(m as int) =~= sv);
    out
}

} // verus!
