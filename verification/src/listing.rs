//! The order of a directory listing: directories first, then files, each
//! group by name; dot files left out unless hidden files are shown.

use vstd::prelude::*;
use crate::state::Entry;
use crate::text::{seq_less, str_less};

verus! {

/// `a` is listed before `b`: a directory before a file, else by name.
pub open spec fn entry_before(a: Entry, b: Entry) -> bool {
    (a.is_dir && !b.is_dir) || (a.is_dir == b.is_dir && seq_less(a.name@, b.name@))
}

/// A dot file.
pub open spec fn dot_file(e: Entry) -> bool {
    e.name@.len() > 0 && e.name@[0] == '.'
}

/// The entries of `es[0..n]` a listing shows, in their order.
pub open spec fn shown_entries(es: Seq<Entry>, show_hidden: bool, n: int) -> Seq<Entry>
    decreases n,
{
    if n <= 0 {
        Seq::empty()
    } else {
        let prev = shown_entries(es, show_hidden, n - 1);
        if !show_hidden && dot_file(es[n - 1]) { prev } else { prev.push(es[n - 1]) }
    }
}

/// `e` inserted before the first entry it is listed before (entries that tie
/// keep their order).
pub open spec fn ins_entry(s: Seq<Entry>, e: Entry) -> Seq<Entry>
    decreases s.len(),
{
    if s.len() == 0 {
        seq![e]
    } else if entry_before(e, s[0]) {
        seq![e] + s
    } else {
        seq![s[0]] + ins_entry(s.drop_first(), e)
    }
}

/// `es[0..n]` in listing order (a stable insertion sort).
pub open spec fn sorted_entries(es: Seq<Entry>, n: int) -> Seq<Entry>
    decreases n,
{
    if n <= 0 { Seq::empty() } else { ins_entry(sorted_entries(es, n - 1), es[n - 1]) }
}

/// The listing of `es`.
pub open spec fn listing_spec(es: Seq<Entry>, show_hidden: bool) -> Seq<Entry> {
    let sh = shown_entries(es, show_hidden, es.len() as int);
    sorted_entries(sh, sh.len() as int)
}

/// No entry is listed after one it should come before.
pub open spec fn ordered(s: Seq<Entry>) -> bool {
    forall|i: int, j: int| 0 <= i < j < s.len() ==> !entry_before(#[trigger] s[j], #[trigger] s[i])
}

pub proof fn lemma_seq_less_trans(a: Seq<char>, b: Seq<char>, c: Seq<char>)
    requires
        seq_less(a, b),
        seq_less(b, c),
    ensures
        seq_less(a, c),
    decreases a.len(),
{
    if a.len() > 0 && b.len() > 0 && c.len() > 0 && a[0] == b[0] && b[0] == c[0] {
        lemma_seq_less_trans(a.drop_first(), b.drop_first(), c.drop_first());
    }
}

pub proof fn lemma_seq_less_irrefl(a: Seq<char>)
    ensures
        !seq_less(a, a),
    decreases a.len(),
{
    if a.len() > 0 {
        lemma_seq_less_irrefl(a.drop_first());
    }
}

proof fn lemma_before_trans(a: Entry, b: Entry, c: Entry)
    requires
        entry_before(a, b),
        entry_before(b, c),
    ensures
        entry_before(a, c),
{
    if a.is_dir == b.is_dir && b.is_dir == c.is_dir {
        lemma_seq_less_trans(a.name@, b.name@, c.name@);
    }
}

proof fn lemma_ins_keeps_bound(s: Seq<Entry>, e: Entry, b: Entry)
    requires
        forall|j: int| 0 <= j < s.len() ==> !entry_before(#[trigger] s[j], b),
        !entry_before(e, b),
    ensures
        forall|k: int| 0 <= k < ins_entry(s, e).len() ==> !entry_before(#[trigger] ins_entry(s, e)[k], b),
        ins_entry(s, e).len() == s.len() + 1,
    decreases s.len(),
{
    if s.len() > 0 && !entry_before(e, s[0]) {
        let t = s.drop_first();
        assert forall|j: int| 0 <= j < t.len() implies !entry_before(#[trigger] t[j], b) by {
            assert(t[j] == s[j + 1]);
        }
        lemma_ins_keeps_bound(t, e, b);
        let r = ins_entry(s, e);
        assert forall|k: int| 0 <= k < r.len() implies !entry_before(#[trigger] r[k], b) by {
            if k > 0 {
                assert(r[k] == ins_entry(t, e)[k - 1]);
            }
        }
    }
}

proof fn lemma_ins_ordered(s: Seq<Entry>, e: Entry)
    requires
        ordered(s),
    ensures
        ordered(ins_entry(s, e)),
        ins_entry(s, e).len() == s.len() + 1,
    decreases s.len(),
{
    if s.len() == 0 {
    } else if entry_before(e, s[0]) {
        let r = ins_entry(s, e);
        assert(r =~= seq![e] + s);
        assert forall|i: int, j: int| 0 <= i < j < r.len() implies !entry_before(#[trigger] r[j], #[trigger] r[i]) by {
            if i == 0 {
                assert(r[j] == s[j - 1]);
                if j - 1 > 0 {
                    assert(!entry_before(s[j - 1], s[0]));
                }
                if entry_before(s[j - 1], e) {
                    lemma_before_trans(s[j - 1], e, s[0]);
                    lemma_seq_less_irrefl(s[0].name@);
                }
            } else {
                assert(r[i] == s[i - 1] && r[j] == s[j - 1]);
            }
        }
    } else {
        let t = s.drop_first();
        assert(ordered(t)) by {
            assert forall|i: int, j: int| 0 <= i < j < t.len() implies !entry_before(#[trigger] t[j], #[trigger] t[i]) by {
                assert(t[i] == s[i + 1] && t[j] == s[j + 1]);
            }
        }
        lemma_ins_ordered(t, e);
        assert forall|j: int| 0 <= j < t.len() implies !entry_before(#[trigger] t[j], s[0]) by {
            assert(t[j] == s[j + 1]);
        }
        lemma_ins_keeps_bound(t, e, s[0]);
        let u = ins_entry(t, e);
        let r = ins_entry(s, e);
        assert(r =~= seq![s[0]] + u);
        assert forall|i: int, j: int| 0 <= i < j < r.len() implies !entry_before(#[trigger] r[j], #[trigger] r[i]) by {
            assert(r[j] == u[j - 1]);
            if i > 0 {
                assert(r[i] == u[i - 1]);
            }
        }
    }
}

proof fn lemma_sorted_ordered(es: Seq<Entry>, n: int)
    requires
        0 <= n <= es.len(),
    ensures
        ordered(sorted_entries(es, n)),
        sorted_entries(es, n).len() == n,
    decreases n,
{
    if n > 0 {
        lemma_sorted_ordered(es, n - 1);
        lemma_ins_ordered(sorted_entries(es, n - 1), es[n - 1]);
    }
}

proof fn lemma_ins_entry_at(s: Seq<Entry>, e: Entry, i: int)
    requires
        0 <= i <= s.len(),
        forall|j: int| 0 <= j < i ==> !entry_before(e, #[trigger] s[j]),
        i < s.len() ==> entry_before(e, s[i]),
    ensures
        ins_entry(s, e) == s.take(i) + seq![e] + s.skip(i),
    decreases s.len(),
{
    if s.len() == 0 {
        assert(s.take(i) + seq![e] + s.skip(i) =~= seq![e]);
    } else if i == 0 {
        assert(s.take(0) + seq![e] + s.skip(0) =~= seq![e] + s);
    } else {
        let t = s.drop_first();
        assert forall|j: int| 0 <= j < i - 1 implies !entry_before(e, #[trigger] t[j]) by {
            assert(t[j] == s[j + 1]);
        }
        lemma_ins_entry_at(t, e, i - 1);
        assert(seq![s[0]] + (t.take(i - 1) + seq![e] + t.skip(i - 1)) =~= s.take(i) + seq![e] + s.skip(i));
    }
}

/// Whether `a` is listed before `b`.
fn listed_before(a: &Entry, b: &Entry) -> (r: bool)
    ensures
        r == entry_before(*a, *b),
{
    if a.is_dir != b.is_dir {
        a.is_dir
    } else {
        str_less(a.name.as_str(), b.name.as_str())
    }
}

/// Whether a listing (or a walk) shows an entry of this name: always when
/// hidden files are shown, else unless it is a dot file.
pub fn is_shown(name: &str, show_hidden: bool) -> (r: bool)
    ensures
        r == (show_hidden || !(name@.len() > 0 && name@[0] == '.')),
{
    if show_hidden {
        return true;
    }
    let cs = crate::text::chars_of(name);
    !(cs.len() > 0 && cs[0] == '.')
}

/// A directory's entries, read in any order, as the listing shows them: dot
/// files dropped unless `show_hidden`, directories first, then files, each
/// group by name (a stable sort, so entries that tie keep their order).
pub fn order_entries(entries: Vec<Entry>, show_hidden: bool) -> (r: Vec<Entry>)
    ensures
        r@ == listing_spec(entries@, show_hidden),
        ordered(r@),
        forall|i: int, j: int| 0 <= i < j < r@.len() && (#[trigger] r@[j]).is_dir ==> (#[trigger] r@[i]).is_dir,
{
    let ghost orig = entries@;
    let mut rest = entries;
    let mut shown: Vec<Entry> = Vec::new();
    let n0 = rest.len();
    let mut k: usize = 0;
    assert(shown@ =~= shown_entries(orig, show_hidden, 0));
    assert(rest@ =~= orig.skip(0));
    while rest.len() > 0
        invariant
            k <= orig.len(),
            n0 == orig.len(),
            rest@ == orig.skip(k as int),
            shown@ == shown_entries(orig, show_hidden, k as int),
        decreases rest@.len(),
    {
        let e = rest.remove(0);
        assert(e == orig[k as int]);
        assert(rest@ =~= orig.skip(k as int + 1));
        if show_hidden || !e.is_hidden() {
            shown.push(e);
        }
        k = k + 1;
    }
    assert(k == orig.len());
    let ghost sh = shown@;
    let mut sorted: Vec<Entry> = Vec::new();
    let n1 = shown.len();
    let mut m: usize = 0;
    assert(shown@ =~= sh.skip(0));
    while shown.len() > 0
        invariant
            m <= sh.len(),
            n1 == sh.len(),
            shown@ == sh.skip(m as int),
            sorted@ == sorted_entries(sh, m as int),
        decreases shown@.len(),
    {
        let x = shown.remove(0);
        assert(x == sh[m as int]);
        assert(shown@ =~= sh.skip(m as int + 1));
        let ghost s0 = sorted@;
        let mut p: usize = 0;
        while p < sorted.len() && !listed_before(&x, &sorted[p])
            invariant
                p <= sorted@.len(),
                s0 == sorted@,
                forall|j: int| 0 <= j < p ==> !entry_before(x, #[trigger] s0[j]),
            decreases sorted@.len() - p,
        {
            p = p + 1;
        }
        proof { lemma_ins_entry_at(s0, x, p as int); }
        sorted.insert(p, x);
        assert(sorted@ =~= s0.take(p as int) + seq![sh[m as int]] + s0.skip(p as int));
        m = m + 1;
    }
    assert(m == sh.len());
    proof {
        lemma_sorted_ordered(sh, sh.len() as int);
        assert forall|i: int, j: int| 0 <= i < j < sorted@.len() && (#[trigger] sorted@[j]).is_dir
            implies (#[trigger] sorted@[i]).is_dir by {
            assert(!entry_before(sorted@[j], sorted@[i]));
        }
    }
    sorted
}


// --- the bounded walk of the file search --------------------------------------

/// The entries of one directory that a walk takes, as (path, is a
/// directory): those it shows, in listing order.
pub open spec fn walk_picks(es: Seq<(Seq<char>, Seq<char>, bool)>, show_hidden: bool) -> Seq<(Seq<char>, bool)>
    decreases es.len(),
{
    if es.len() == 0 {
        Seq::empty()
    } else {
        let r = walk_picks(es.drop_last(), show_hidden);
        let e = es.last();
        if show_hidden || !(e.0.len() > 0 && e.0[0] == '.') { r.push((e.1, e.2)) } else { r }
    }
}

/// The paths of the picks.
pub open spec fn pick_paths(ps: Seq<(Seq<char>, bool)>) -> Seq<Seq<char>> {
    Seq::new(ps.len(), |i: int| ps[i].0)
}

/// The paths of the picked directories, in order.
pub open spec fn pick_dirs(ps: Seq<(Seq<char>, bool)>) -> Seq<Seq<char>>
    decreases ps.len(),
{
    if ps.len() == 0 {
        Seq::empty()
    } else {
        pick_dirs(ps.drop_last()) + (if ps.last().1 { seq![ps.last().0] } else { Seq::empty() })
    }
}

/// The listing triples (name, path, is a directory) as values.
pub open spec fn triple_views(v: Seq<(String, String, bool)>) -> Seq<(Seq<char>, Seq<char>, bool)> {
    Seq::new(v.len(), |i: int| (v[i].0@, v[i].1@, v[i].2))
}

/// How many picks a walk that has found `found` paths still takes.
pub open spec fn walk_room(found: int, cap: int) -> int {
    if found >= cap { 0 } else { cap - found }
}

proof fn lemma_walk_picks_prefix(es: Seq<(Seq<char>, Seq<char>, bool)>, show_hidden: bool, i: int)
    requires
        0 <= i <= es.len(),
    ensures
        walk_picks(es.take(i), show_hidden).len() <= walk_picks(es, show_hidden).len(),
        walk_picks(es, show_hidden).take(walk_picks(es.take(i), show_hidden).len() as int) == walk_picks(es.take(i), show_hidden),
    decreases es.len() - i,
{
    if i < es.len() {
        lemma_walk_picks_prefix(es, show_hidden, i + 1);
        let a = walk_picks(es.take(i), show_hidden);
        let b = walk_picks(es.take(i + 1), show_hidden);
        assert(es.take(i + 1).drop_last() =~= es.take(i));
        assert(b.take(a.len() as int) =~= a);
        let w = walk_picks(es, show_hidden);
        assert(w.take(a.len() as int) =~= w.take(b.len() as int).take(a.len() as int));
    } else {
        assert(es.take(i) =~= es);
        assert(walk_picks(es, show_hidden).take(walk_picks(es, show_hidden).len() as int) =~= walk_picks(es, show_hidden));
    }
}

/// One directory's listing folded into a bounded walk: each shown entry's
/// path is found, a shown directory is also queued to be walked, until
/// `cap` paths are found (a full walk takes nothing).
pub fn walk_step(found: &mut Vec<String>, pending: &mut Vec<String>, entries: Vec<(String, String, bool)>, show_hidden: bool, cap: usize)
    ensures
        ({
            let picks = walk_picks(triple_views(entries@), show_hidden);
            let room = walk_room(old(found)@.len() as int, cap as int);
            let taken = picks.take(if picks.len() < room { picks.len() as int } else { room });
            &&& crate::state::views(final(found)@) == crate::state::views(old(found)@) + pick_paths(taken)
            &&& crate::state::views(final(pending)@) == crate::state::views(old(pending)@) + pick_dirs(taken)
        }),
{
    let ghost es = triple_views(entries@);
    let ghost f0 = crate::state::views(found@);
    let ghost p0 = crate::state::views(pending@);
    let ghost room = walk_room(found@.len() as int, cap as int);
    if found.len() >= cap {
        assert(walk_picks(es, show_hidden).take(0) =~= Seq::<(Seq<char>, bool)>::empty());
        assert(f0 + pick_paths(Seq::<(Seq<char>, bool)>::empty()) =~= f0);
        assert(p0 + pick_dirs(Seq::<(Seq<char>, bool)>::empty()) =~= p0);
        return;
    }
    let mut i: usize = 0;
    assert(es.take(0) =~= Seq::<(Seq<char>, Seq<char>, bool)>::empty());
    assert(f0 + pick_paths(Seq::<(Seq<char>, bool)>::empty()) =~= f0);
    assert(p0 + pick_dirs(Seq::<(Seq<char>, bool)>::empty()) =~= p0);
    while i < entries.len()
        invariant
            es == triple_views(entries@),
            i <= entries@.len(),
            f0 == crate::state::views(old(found)@),
            p0 == crate::state::views(old(pending)@),
            room == walk_room(old(found)@.len() as int, cap as int),
            room == cap - f0.len(),
            f0.len() < cap,
            crate::state::views(found@) == f0 + pick_paths(walk_picks(es.take(i as int), show_hidden)),
            crate::state::views(pending@) == p0 + pick_dirs(walk_picks(es.take(i as int), show_hidden)),
            found@.len() == f0.len() + walk_picks(es.take(i as int), show_hidden).len(),
            found@.len() < cap,
        decreases entries@.len() - i,
    {
        let ghost before = walk_picks(es.take(i as int), show_hidden);
        assert(es.take(i + 1).drop_last() =~= es.take(i as int));
        assert(es.take(i + 1).last() == es[i as int]);
        let shown = is_shown(entries[i].0.as_str(), show_hidden);
        assert(es[i as int] == (entries@[i as int].0@, entries@[i as int].1@, entries@[i as int].2));
        if shown {
            let ghost pk = (entries@[i as int].1@, entries@[i as int].2);
            let ghost fb = crate::state::views(found@);
            let ghost pb = crate::state::views(pending@);
            if entries[i].2 {
                pending.push(entries[i].1.clone());
                assert(crate::state::views(pending@) =~= pb.push(pk.0));
            }
            found.push(entries[i].1.clone());
            assert(crate::state::views(found@) =~= fb.push(pk.0));
            assert(before.push(pk).drop_last() =~= before);
            assert(pick_paths(before.push(pk)) =~= pick_paths(before).push(pk.0));
            assert(crate::state::views(found@) =~= f0 + pick_paths(before.push(pk)));
            assert(crate::state::views(pending@) =~= p0 + pick_dirs(before.push(pk)));
            if found.len() >= cap {
                proof {
                    let all = walk_picks(es, show_hidden);
                    let now = walk_picks(es.take(i + 1), show_hidden);
                    lemma_walk_picks_prefix(es, show_hidden, i + 1);
                    assert(es[i as int] == (entries@[i as int].0@, entries@[i as int].1@, entries@[i as int].2));
                    assert(now == before.push(pk));
                    assert(now.len() == room);
                    assert(all.take(room) == now);
                }
                return;
            }
        }
        i = i + 1;
    }
    proof {
        assert(es.take(i as int) =~= es);
        let all = walk_picks(es, show_hidden);
        assert(all.take(all.len() as int) =~= all);
    }
}

} // verus!
