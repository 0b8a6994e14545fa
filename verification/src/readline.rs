//! Minimal readline editing on a (query, caret) pair, shared by the Select
//! query and the function-panel search input. The caret is a byte offset
//! into the query's UTF-8 text, always on a character boundary.

use vstd::prelude::*;
use crate::intent::{Key, KeyCode};
use crate::text::{chars_of, is_whitespace, string_of, white_space};

verus! {

/// The number of bytes of a character's UTF-8 encoding.
pub open spec fn char_width(c: char) -> int {
    let u = c as u32;
    if u < 0x80 { 1 } else if u < 0x800 { 2 } else if u < 0x10000 { 3 } else { 4 }
}

/// The number of bytes of a text's UTF-8 encoding.
pub open spec fn utf8_len(s: Seq<char>) -> int
    decreases s.len(),
{
    if s.len() == 0 { 0 } else { utf8_len(s.drop_last()) + char_width(s.last()) }
}

/// `b` is the byte offset of a character boundary of `q`.
pub open spec fn is_boundary(q: Seq<char>, b: int) -> bool {
    exists|k: int| 0 <= k <= q.len() && #[trigger] utf8_len(q.take(k)) == b
}

/// The number of characters before the boundary at byte offset `b`.
pub open spec fn char_index(q: Seq<char>, b: int) -> int {
    choose|k: int| 0 <= k <= q.len() && #[trigger] utf8_len(q.take(k)) == b
}

/// The edited (query, caret) after `key`, the caret a byte offset.
pub open spec fn readline_bytes(q: Seq<char>, b: int, key: Key) -> (Seq<char>, int) {
    let r = readline_spec(q, char_index(q, b), key);
    (r.0, utf8_len(r.0.take(r.1)))
}

proof fn lemma_utf8_take_step(q: Seq<char>, k: int)
    requires
        0 <= k < q.len(),
    ensures
        utf8_len(q.take(k + 1)) == utf8_len(q.take(k)) + char_width(q[k]),
{
    assert(q.take(k + 1).drop_last() =~= q.take(k));
}

/// Longer prefixes take more bytes.
pub proof fn lemma_utf8_take_mono(q: Seq<char>, i: int, j: int)
    requires
        0 <= i < j <= q.len(),
    ensures
        utf8_len(q.take(i)) < utf8_len(q.take(j)),
    decreases j - i,
{
    lemma_utf8_take_step(q, j - 1);
    if i < j - 1 {
        lemma_utf8_take_mono(q, i, j - 1);
    }
}

proof fn lemma_utf8_take_inj(q: Seq<char>, i: int, j: int)
    requires
        0 <= i <= q.len(),
        0 <= j <= q.len(),
        utf8_len(q.take(i)) == utf8_len(q.take(j)),
    ensures
        i == j,
{
    if i < j {
        lemma_utf8_take_mono(q, i, j);
    } else if j < i {
        lemma_utf8_take_mono(q, j, i);
    }
}

proof fn lemma_utf8_prepend(c: char, t: Seq<char>)
    ensures
        utf8_len(seq![c] + t) == char_width(c) + utf8_len(t),
    decreases t.len(),
{
    if t.len() == 0 {
        assert(seq![c] + t =~= seq![c]);
        assert(seq![c].drop_last() =~= Seq::<char>::empty());
        assert(utf8_len(Seq::<char>::empty()) == 0);
        assert(utf8_len(seq![c]) == utf8_len(seq![c].drop_last()) + char_width(seq![c].last()));
    } else {
        let u = seq![c] + t;
        assert(u.drop_last() =~= seq![c] + t.drop_last());
        assert(u.last() == t.last());
        lemma_utf8_prepend(c, t.drop_last());
        assert(utf8_len(u) == utf8_len(u.drop_last()) + char_width(u.last()));
        assert(utf8_len(t) == utf8_len(t.drop_last()) + char_width(t.last()));
    }
}

/// `utf8_len` counts the bytes of the UTF-8 encoding.
pub proof fn lemma_utf8_len_bytes(s: Seq<char>)
    ensures
        utf8_len(s) == vstd::utf8::encode_utf8(s).len(),
    decreases s.len(),
{
    if s.len() > 0 {
        let c = s[0];
        vstd::utf8::char_is_scalar(c);
        assert(s =~= seq![c] + s.drop_first());
        lemma_utf8_prepend(c, s.drop_first());
        lemma_utf8_len_bytes(s.drop_first());
    }
}

/// The byte length of a text, which therefore fits in a `usize`.
pub fn byte_len(s: &str) -> (r: usize)
    ensures
        r == utf8_len(s@),
{
    proof {
        lemma_utf8_len_bytes(s@);
    }
    s.as_bytes().len()
}

fn char_width_of(c: char) -> (r: usize)
    ensures
        r == char_width(c),
{
    let u = c as u32;
    if u < 0x80 { 1 } else if u < 0x800 { 2 } else if u < 0x10000 { 3 } else { 4 }
}

/// The character index of the boundary at byte offset `b`, if `b` is one.
pub fn char_index_of(cs: &Vec<char>, b: usize) -> (r: Option<usize>)
    requires
        utf8_len(cs@) <= usize::MAX,
    ensures
        match r {
            Some(k) => k <= cs@.len() && utf8_len(cs@.take(k as int)) == b && k == char_index(cs@, b as int)
                && is_boundary(cs@, b as int),
            None => !is_boundary(cs@, b as int),
        },
{
    let ghost q = cs@;
    let mut i: usize = 0;
    let mut acc: usize = 0;
    assert(q.take(0) =~= Seq::<char>::empty());
    assert(q.take(q.len() as int) =~= q);
    while i < cs.len() && acc < b
        invariant
            q == cs@,
            i <= q.len(),
            utf8_len(q) <= usize::MAX,
            q.take(q.len() as int) == q,
            acc == utf8_len(q.take(i as int)),
            forall|k: int| 0 <= k < i ==> #[trigger] utf8_len(q.take(k)) < b,
        decreases q.len() - i,
    {
        proof {
            lemma_utf8_take_step(q, i as int);
            if i + 1 < q.len() {
                lemma_utf8_take_mono(q, i + 1, q.len() as int);
            }
        }
        let w = char_width_of(cs[i]);
        acc = acc + w;
        i = i + 1;
    }
    if acc == b {
        assert(is_boundary(q, b as int));
        let ghost k0 = char_index(q, b as int);
        proof {
            lemma_utf8_take_inj(q, k0, i as int);
        }
        Some(i)
    } else {
        proof {
            assert forall|k: int| 0 <= k <= q.len() implies #[trigger] utf8_len(q.take(k)) != b by {
                if k > i {
                    lemma_utf8_take_mono(q, i as int, k);
                }
            }
        }
        None
    }
}

/// The byte offset of the boundary before character `k`.
pub fn byte_offset(cs: &Vec<char>, k: usize) -> (r: usize)
    requires
        k <= cs@.len(),
        utf8_len(cs@) <= usize::MAX,
    ensures
        r == utf8_len(cs@.take(k as int)),
{
    let ghost q = cs@;
    let mut i: usize = 0;
    let mut acc: usize = 0;
    assert(q.take(0) =~= Seq::<char>::empty());
    assert(q.take(q.len() as int) =~= q);
    while i < k
        invariant
            q == cs@,
            i <= k <= q.len(),
            utf8_len(q) <= usize::MAX,
            q.take(q.len() as int) == q,
            acc == utf8_len(q.take(i as int)),
        decreases k - i,
    {
        proof {
            lemma_utf8_take_step(q, i as int);
            if i + 1 < q.len() {
                lemma_utf8_take_mono(q, i + 1, q.len() as int);
            }
        }
        let w = char_width_of(cs[i]);
        acc = acc + w;
        i = i + 1;
    }
    acc
}

/// Whether `b` is a character boundary of `s`.
pub fn on_boundary(s: &str, b: usize) -> (r: bool)
    ensures
        r == is_boundary(s@, b as int),
{
    let cs = chars_of(s);
    let _n = byte_len(s);
    char_index_of(&cs, b).is_some()
}

/// The length of `s` once trailing whitespace is trimmed.
pub open spec fn trim_end_len(s: Seq<char>) -> int
    decreases s.len(),
{
    if s.len() > 0 && white_space(s.last()) { trim_end_len(s.drop_last()) } else { s.len() as int }
}

/// The index of the last whitespace character among the first `k` of `s`,
/// or -1.
pub open spec fn last_ws_before(s: Seq<char>, k: int) -> int
    decreases k,
{
    if k <= 0 { -1 } else if white_space(s[k - 1]) { k - 1 } else { last_ws_before(s, k - 1) }
}

/// Where ctrl-w starts deleting: just past the last whitespace before the
/// word that ends at the caret (trailing whitespace included in the word).
pub open spec fn word_start_spec(q: Seq<char>, caret: int) -> int {
    let t = trim_end_len(q.take(caret));
    let f = last_ws_before(q, t);
    if f >= 0 { f + 1 } else { 0 }
}

/// `q` with the characters in `[from, to)` removed.
pub open spec fn cut(q: Seq<char>, from: int, to: int) -> Seq<char> {
    q.take(from) + q.skip(to)
}

pub open spec fn prev_spec(caret: int) -> int {
    if caret > 0 { caret - 1 } else { 0 }
}

pub open spec fn next_spec(q: Seq<char>, caret: int) -> int {
    if caret < q.len() { caret + 1 } else { caret }
}

pub open spec fn backspace_spec(q: Seq<char>, caret: int) -> (Seq<char>, int) {
    if caret > 0 { (cut(q, caret - 1, caret), caret - 1) } else { (q, caret) }
}

pub open spec fn delete_spec(q: Seq<char>, caret: int) -> (Seq<char>, int) {
    if caret < q.len() { (cut(q, caret, caret + 1), caret) } else { (q, caret) }
}

/// The edited (query, caret) after `key`.
pub open spec fn readline_spec(q: Seq<char>, caret: int, key: Key) -> (Seq<char>, int) {
    match key.code {
        KeyCode::Char(c) => if key.mods.ctrl {
            if c == 'a' { (q, 0) }
            else if c == 'e' { (q, q.len() as int) }
            else if c == 'k' { (q.take(caret), caret) }
            else if c == 'u' { (q.skip(caret), 0) }
            else if c == 'w' { let st = word_start_spec(q, caret); (cut(q, st, caret), st) }
            else if c == 'b' { (q, prev_spec(caret)) }
            else if c == 'f' { (q, next_spec(q, caret)) }
            else if c == 'h' { backspace_spec(q, caret) }
            else if c == 'd' { delete_spec(q, caret) }
            else { (q, caret) }
        } else {
            (q.take(caret).push(c) + q.skip(caret), caret + 1)
        },
        KeyCode::Backspace => backspace_spec(q, caret),
        KeyCode::Delete => delete_spec(q, caret),
        KeyCode::Left => (q, prev_spec(caret)),
        KeyCode::Right => (q, next_spec(q, caret)),
        KeyCode::Home => (q, 0),
        KeyCode::End => (q, q.len() as int),
        _ => (q, caret),
    }
}

/// Editing keeps the caret within the query.
pub proof fn law_readline_caret_in_range(q: Seq<char>, caret: int, key: Key)
    requires
        0 <= caret <= q.len(),
    ensures
        0 <= readline_spec(q, caret, key).1 <= readline_spec(q, caret, key).0.len(),
{
    lemma_word_start_bounds(q, caret);
}

/// Editing keeps a byte caret on a character boundary of the query.
pub proof fn law_readline_caret_on_boundary(q: Seq<char>, b: int, key: Key)
    requires
        is_boundary(q, b),
    ensures
        is_boundary(readline_bytes(q, b, key).0, readline_bytes(q, b, key).1),
{
    let k = char_index(q, b);
    law_readline_caret_in_range(q, k, key);
    let r = readline_spec(q, k, key);
    assert(0 <= r.1 <= r.0.len() && utf8_len(r.0.take(r.1)) == readline_bytes(q, b, key).1);
}

proof fn lemma_trim_end_len_bounds(s: Seq<char>)
    ensures
        0 <= trim_end_len(s) <= s.len(),
    decreases s.len(),
{
    if s.len() > 0 && white_space(s.last()) {
        lemma_trim_end_len_bounds(s.drop_last());
    }
}

proof fn lemma_last_ws_bounds(s: Seq<char>, k: int)
    ensures
        -1 <= last_ws_before(s, k) < (if k > 0 { k } else { 0 }),
    decreases k,
{
    if k > 0 && !white_space(s[k - 1]) {
        lemma_last_ws_bounds(s, k - 1);
    }
}

pub proof fn lemma_word_start_bounds(q: Seq<char>, caret: int)
    requires
        0 <= caret <= q.len(),
    ensures
        0 <= word_start_spec(q, caret) <= caret,
{
    lemma_trim_end_len_bounds(q.take(caret));
    lemma_last_ws_bounds(q, trim_end_len(q.take(caret)));
}

/// The characters of `cs` outside `[from, to)`.
fn cut_chars(cs: &Vec<char>, from: usize, to: usize) -> (r: Vec<char>)
    requires
        from <= to <= cs@.len(),
    ensures
        r@ == cut(cs@, from as int, to as int),
{
    let mut r: Vec<char> = Vec::new();
    let mut i: usize = 0;
    while i < from
        invariant
            i <= from <= to <= cs@.len(),
            r@ == cs@.take(i as int),
        decreases from - i,
    {
        r.push(cs[i]);
        i = i + 1;
        assert(r@ =~= cs@.take(i as int));
    }
    let mut j: usize = to;
    while j < cs.len()
        invariant
            from <= to <= j <= cs@.len(),
            r@ == cs@.take(from as int) + cs@.subrange(to as int, j as int),
        decreases cs@.len() - j,
    {
        r.push(cs[j]);
        j = j + 1;
        assert(r@ =~= cs@.take(from as int) + cs@.subrange(to as int, j as int));
    }
    assert(cs@.subrange(to as int, j as int) =~= cs@.skip(to as int));
    r
}

/// The position just past the last whitespace before the word at `caret`.
pub fn word_start(cs: &Vec<char>, caret: usize) -> (r: usize)
    requires
        caret <= cs@.len(),
    ensures
        r == word_start_spec(cs@, caret as int),
{
    let ghost q = cs@;
    let mut t = caret;
    proof {
        assert(q.take(caret as int).take(caret as int) =~= q.take(caret as int));
    }
    while t > 0 && is_whitespace(cs[t - 1])
        invariant
            t <= caret <= cs@.len(),
            q == cs@,
            trim_end_len(q.take(caret as int)) == trim_end_len(q.take(t as int)),
        decreases t,
    {
        assert(q.take(t as int).drop_last() =~= q.take(t - 1));
        assert(q.take(t as int).last() == q[t - 1]);
        t = t - 1;
    }
    assert(trim_end_len(q.take(t as int)) == t) by {
        if t > 0 {
            assert(q.take(t as int).last() == q[t - 1]);
        }
    }
    let mut k = t;
    while k > 0 && !is_whitespace(cs[k - 1])
        invariant
            k <= t,
            q == cs@,
            t <= cs@.len(),
            last_ws_before(q, t as int) == last_ws_before(q, k as int),
        decreases k,
    {
        k = k - 1;
    }
    if k > 0 { k } else { 0 }
}

/// One editing key on the characters of a query, the caret a character index.
fn edit_chars(cs: &Vec<char>, c0: usize, key: Key) -> (r: (Vec<char>, usize))
    requires
        c0 <= cs@.len(),
    ensures
        (r.0@, r.1 as int) == readline_spec(cs@, c0 as int, key),
{
    let n = cs.len();
    let mut q: Vec<char> = cs.clone();
    let mut k: usize = c0;
    assert(q@ =~= cs@);
    proof {
        lemma_word_start_bounds(cs@, c0 as int);
        assert(cs@.take(n as int) =~= cs@);
        assert(cs@.skip(0) =~= cs@);
    }
    match key.code {
        KeyCode::Char(c) => {
            if key.mods.ctrl {
                if c == 'a' {
                    k = 0;
                } else if c == 'e' {
                    k = n;
                } else if c == 'k' {
                    let r = cut_chars(cs, c0, n);
                    assert(cut(cs@, c0 as int, n as int) =~= cs@.take(c0 as int));
                    q = r;
                } else if c == 'u' {
                    let r = cut_chars(cs, 0, c0);
                    assert(cut(cs@, 0, c0 as int) =~= cs@.skip(c0 as int));
                    q = r;
                    k = 0;
                } else if c == 'w' {
                    let st = word_start(cs, c0);
                    let r = cut_chars(cs, st, c0);
                    q = r;
                    k = st;
                } else if c == 'b' {
                    k = if c0 > 0 { c0 - 1 } else { 0 };
                } else if c == 'f' {
                    k = if c0 < n { c0 + 1 } else { c0 };
                } else if c == 'h' {
                    if c0 > 0 {
                        let r = cut_chars(cs, c0 - 1, c0);
                        q = r;
                        k = c0 - 1;
                    }
                } else if c == 'd' {
                    if c0 < n {
                        let r = cut_chars(cs, c0, c0 + 1);
                        q = r;
                    }
                }
            } else {
                let mut r = cs.clone();
                r.insert(c0, c);
                assert(r@ =~= cs@.take(c0 as int).push(c) + cs@.skip(c0 as int));
                let m = r.len();
                assert(m == n + 1);
                q = r;
                k = c0 + 1;
            }
        }
        KeyCode::Backspace => {
            if c0 > 0 {
                let r = cut_chars(cs, c0 - 1, c0);
                q = r;
                k = c0 - 1;
            }
        }
        KeyCode::Delete => {
            if c0 < n {
                let r = cut_chars(cs, c0, c0 + 1);
                q = r;
            }
        }
        KeyCode::Left => k = if c0 > 0 { c0 - 1 } else { 0 },
        KeyCode::Right => k = if c0 < n { c0 + 1 } else { c0 },
        KeyCode::Home => k = 0,
        KeyCode::End => k = n,
        _ => {}
    }
    (q, k)
}

/// Apply one editing key to the (query, caret) pair; the caret is a byte
/// offset on a character boundary before and after.
pub fn readline_query(query: &mut String, caret: &mut usize, key: Key)
    requires
        is_boundary(old(query)@, *old(caret) as int),
    ensures
        (final(query)@, *final(caret) as int) == readline_bytes(old(query)@, *old(caret) as int, key),
        is_boundary(final(query)@, *final(caret) as int),
{
    let cs = chars_of(query.as_str());
    let _n = byte_len(query.as_str());
    let c0 = match char_index_of(&cs, *caret) {
        Some(k) => k,
        None => {
            return;
        }
    };
    let (q, k) = edit_chars(&cs, c0, key);
    proof {
        law_readline_caret_in_range(cs@, c0 as int, key);
    }
    let text = string_of(q.as_slice());
    let _m = byte_len(text.as_str());
    let b = byte_offset(&q, k);
    assert(is_boundary(q@, b as int)) by {
        assert(utf8_len(q@.take(k as int)) == b);
    }
    *query = text;
    *caret = b;
}

} // verus!
