//! The less-style search of text and hex previews: every ASCII
//! case-insensitive, non-overlapping occurrence of a query, as byte ranges of
//! the lines (so a renderer can highlight them directly).

use vstd::prelude::*;
use crate::text::{ascii_lower, ascii_lower_spec};

verus! {

/// The bytes of `s` with ASCII capitals lowered.
pub open spec fn lower_bytes(s: Seq<u8>) -> Seq<u8> {
    Seq::new(s.len(), |i: int| ascii_lower_spec(s[i]))
}

/// `hay[i..i + nee.len()]`, lowered, equals `nee`.
pub open spec fn window_matches(hay: Seq<u8>, nee: Seq<u8>, i: int) -> bool {
    forall|k: int| 0 <= k < nee.len() ==> ascii_lower_spec(#[trigger] hay[i + k]) == nee[k]
}

/// The non-overlapping occurrences of `nee` in `hay` at or after `i`, scanning
/// left to right and skipping past each occurrence found.
pub open spec fn matches_from(hay: Seq<u8>, nee: Seq<u8>, i: int) -> Seq<(int, int)>
    decreases hay.len() - i,
{
    if nee.len() == 0 || i < 0 || i + nee.len() > hay.len() {
        Seq::empty()
    } else if window_matches(hay, nee, i) {
        seq![(i, i + nee.len())] + matches_from(hay, nee, i + nee.len())
    } else {
        matches_from(hay, nee, i + 1)
    }
}

/// The matches of `nee` in `lines[0..n]`, each as (line, byte start, byte end).
pub open spec fn matches_upto(lines: Seq<Seq<u8>>, nee: Seq<u8>, n: int) -> Seq<(int, int, int)>
    decreases n,
{
    if n <= 0 {
        Seq::empty()
    } else {
        let here = matches_from(lines[n - 1], nee, 0);
        matches_upto(lines, nee, n - 1) + Seq::new(here.len(), |k: int| (n - 1, here[k].0, here[k].1))
    }
}

/// The UTF-8 bytes of each line.
pub open spec fn line_bytes(lines: Seq<String>) -> Seq<Seq<u8>> {
    Seq::new(lines.len(), |i: int| vstd::utf8::encode_utf8(lines[i]@))
}

/// The search result of `query` over `lines`: its lowered bytes matched in
/// every line, in document order; nothing for an empty query.
pub open spec fn find_spec(lines: Seq<String>, query: Seq<char>) -> Seq<(int, int, int)> {
    let nee = lower_bytes(vstd::utf8::encode_utf8(query));
    matches_upto(line_bytes(lines), nee, lines.len() as int)
}

/// The models of match triples.
pub open spec fn triple_views(v: Seq<(usize, usize, usize)>) -> Seq<(int, int, int)> {
    Seq::new(v.len(), |i: int| (v[i].0 as int, v[i].1 as int, v[i].2 as int))
}

fn window_eq(hay: &[u8], nee: &[u8], i: usize) -> (r: bool)
    requires
        i + nee@.len() <= hay@.len(),
    ensures
        r == window_matches(hay@, nee@, i as int),
{
    let n = hay.len();
    let mut k: usize = 0;
    while k < nee.len()
        invariant
            k <= nee@.len(),
            n == hay@.len(),
            i + nee@.len() <= hay@.len(),
            forall|j: int| 0 <= j < k ==> ascii_lower_spec(#[trigger] hay@[i + j]) == nee@[j],
        decreases nee@.len() - k,
    {
        if ascii_lower(hay[i + k]) != nee[k] {
            assert(!(ascii_lower_spec(hay@[i + k as int]) == nee@[k as int]));
            return false;
        }
        k = k + 1;
    }
    true
}

/// The matches of `nee` (already lowered) in one line, appended to `out` with
/// the line's index.
fn find_in_line(hay: &[u8], nee: &[u8], li: usize, out: &mut Vec<(usize, usize, usize)>)
    requires
        nee@.len() > 0,
    ensures
        triple_views(final(out)@) == triple_views(old(out)@) + {
            let here = matches_from(hay@, nee@, 0);
            Seq::new(here.len(), |k: int| (li as int, here[k].0, here[k].1))
        },
{
    let ghost start = triple_views(out@);
    let mut i: usize = 0;
    assert(start + Seq::new(matches_from(hay@, nee@, 0).len(), |k: int| (li as int, matches_from(hay@, nee@, 0)[k].0, matches_from(hay@, nee@, 0)[k].1))
        =~= start + Seq::new(matches_from(hay@, nee@, 0).len(), |k: int| (li as int, matches_from(hay@, nee@, 0)[k].0, matches_from(hay@, nee@, 0)[k].1)));
    while i < hay.len() && nee.len() <= hay.len() - i
        invariant
            i <= hay@.len(),
            nee@.len() > 0,
            ({
                let all = matches_from(hay@, nee@, 0);
                let rest = matches_from(hay@, nee@, i as int);
                triple_views(out@) + Seq::new(rest.len(), |k: int| (li as int, rest[k].0, rest[k].1))
                    == start + Seq::new(all.len(), |k: int| (li as int, all[k].0, all[k].1))
            }),
        decreases hay@.len() - i,
    {
        let ghost rest = matches_from(hay@, nee@, i as int);
        let ghost before = triple_views(out@);
        if window_eq(hay, nee, i) {
            out.push((li, i, i + nee.len()));
            let ghost next = matches_from(hay@, nee@, i + nee@.len());
            assert(rest == seq![(i as int, i + nee@.len())] + next);
            assert(triple_views(out@) + Seq::new(next.len(), |k: int| (li as int, next[k].0, next[k].1))
                =~= before + Seq::new(rest.len(), |k: int| (li as int, rest[k].0, rest[k].1)));
            i = i + nee.len();
        } else {
            let ghost next = matches_from(hay@, nee@, i + 1);
            assert(rest == next);
            i = i + 1;
        }
    }
    assert(matches_from(hay@, nee@, i as int) =~= Seq::<(int, int)>::empty());
    assert(triple_views(out@) =~= triple_views(out@) + Seq::new(0, |k: int| (li as int, 0int, 0int)));
}

/// Every `(line, byte start, byte end)` match of `query` in `lines`, in
/// document order. Matching is ASCII case-insensitive and non-overlapping; an
/// empty query yields no matches.
pub fn find_matches(lines: &[String], query: &str) -> (r: Vec<(usize, usize, usize)>)
    ensures
        triple_views(r@) == find_spec(lines@, query@),
{
    let qb = query.as_bytes();
    let mut nee: Vec<u8> = Vec::new();
    let mut q: usize = 0;
    while q < qb.len()
        invariant
            q <= qb@.len(),
            nee@ == lower_bytes(qb@).take(q as int),
        decreases qb@.len() - q,
    {
        nee.push(ascii_lower(qb[q]));
        q = q + 1;
        assert(nee@ =~= lower_bytes(qb@).take(q as int));
    }
    assert(lower_bytes(qb@).take(q as int) =~= lower_bytes(qb@));
    assert(qb@ == vstd::utf8::encode_utf8(query@));
    let mut out: Vec<(usize, usize, usize)> = Vec::new();
    if nee.len() == 0 {
        proof {
            lemma_empty_needle(line_bytes(lines@), nee@, lines@.len() as int);
        }
        assert(triple_views(out@) =~= Seq::<(int, int, int)>::empty());
        return out;
    }
    let ghost lb = line_bytes(lines@);
    let mut li: usize = 0;
    assert(triple_views(out@) =~= matches_upto(lb, nee@, 0));
    while li < lines.len()
        invariant
            li <= lines@.len(),
            nee@.len() > 0,
            lb == line_bytes(lines@),
            triple_views(out@) == matches_upto(lb, nee@, li as int),
        decreases lines@.len() - li,
    {
        let hay = lines[li].as_str().as_bytes();
        assert(hay@ == lb[li as int]);
        find_in_line(hay, nee.as_slice(), li, &mut out);
        li = li + 1;
    }
    out
}

proof fn lemma_empty_needle(lines: Seq<Seq<u8>>, nee: Seq<u8>, n: int)
    requires
        nee.len() == 0,
    ensures
        matches_upto(lines, nee, n).len() == 0,
    decreases n,
{
    if n > 0 {
        lemma_empty_needle(lines, nee, n - 1);
    }
}


/// Queries whose UTF-8 bytes agree up to ASCII case find the same matches:
/// matching is case-insensitive in the query as well as in the lines.
pub proof fn law_query_case_ignored(lines: Seq<String>, q1: Seq<char>, q2: Seq<char>)
    requires
        lower_bytes(vstd::utf8::encode_utf8(q1)) == lower_bytes(vstd::utf8::encode_utf8(q2)),
    ensures
        find_spec(lines, q1) == find_spec(lines, q2),
{
}

proof fn lemma_upto_keeps(lines: Seq<Seq<u8>>, nee: Seq<u8>, m: int, n: int, x: (int, int, int))
    requires
        0 <= m <= n,
        matches_upto(lines, nee, m).contains(x),
    ensures
        matches_upto(lines, nee, n).contains(x),
    decreases n - m,
{
    if m < n {
        lemma_upto_keeps(lines, nee, m, n - 1, x);
        let a = matches_upto(lines, nee, n - 1);
        let k = choose|k: int| 0 <= k < a.len() && a[k] == x;
        let here = matches_from(lines[n - 1], nee, 0);
        let b = a + Seq::new(here.len(), |i: int| (n - 1, here[i].0, here[i].1));
        assert(b[k] == x);
    }
}

/// A line that is exactly the (non-empty) query is found whole: whatever the
/// case of its letters, the search reports a match from the line's first
/// byte to its last.
pub proof fn law_query_finds_itself(lines: Seq<String>, query: Seq<char>, li: int)
    requires
        0 <= li < lines.len(),
        lines[li]@ == query,
        query.len() > 0,
    ensures
        find_spec(lines, query).contains((li, 0, vstd::utf8::encode_utf8(query).len() as int)),
{
    let qb = vstd::utf8::encode_utf8(query);
    vstd::utf8::char_is_scalar(query[0]);
    assert(vstd::utf8::encode_scalar(query[0] as u32).len() >= 1);
    assert(qb.len() >= 1);
    let nee = lower_bytes(qb);
    let lb = line_bytes(lines);
    let hay = lb[li];
    assert(hay == qb);
    assert(window_matches(hay, nee, 0));
    let here = matches_from(hay, nee, 0);
    assert(here[0] == (0int, nee.len() as int));
    let a = matches_upto(lb, nee, li);
    let b = matches_upto(lb, nee, li + 1);
    assert(b == a + Seq::new(here.len(), |k: int| (li, here[k].0, here[k].1)));
    assert(b[a.len() as int] == (li, 0int, qb.len() as int));
    lemma_upto_keeps(lb, nee, li + 1, lines.len() as int, (li, 0int, qb.len() as int));
}

} // verus!
