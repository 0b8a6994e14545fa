//! What the panels show, computed before anything is painted: the styled
//! cells of a content line (syntax runs, search matches, horizontal scroll),
//! the border glyph of a connection mask, the directory navigator's columns
//! and their placement, and the property panel's texts.

use vstd::prelude::*;
use crate::event::StyleRun;
use crate::state::PanelSearch;
use crate::text::{chars_of, push_char, push_str, seq_less, str_less, str_eq, string_of};

verus! {

// --- a content line's cells -------------------------------------------------------

/// How one character of a content line is painted: plain, by a syntax run's
/// colors, or as a search match (the current one stands out).
#[derive(Debug, Clone, Copy, PartialEq, Eq)]
pub enum Paint {
    Plain,
    Run { fg: (u8, u8, u8), bg: Option<(u8, u8, u8)> },
    Match,
    CurrentMatch,
}

/// The byte offset of character `k` of `text` in its UTF-8 encoding.
pub open spec fn byte_at(text: Seq<char>, k: int) -> int {
    vstd::utf8::encode_utf8(text.take(k)).len() as int
}

/// The run covering byte `b`, scanning from run `j` whose first byte is `base`.
pub open spec fn run_from(runs: Seq<StyleRun>, j: int, base: int, b: int) -> Option<int>
    decreases runs.len() - j,
{
    if j < 0 || j >= runs.len() {
        None
    } else if base + runs[j].len > b {
        Some(j)
    } else {
        run_from(runs, j + 1, base + runs[j].len, b)
    }
}

/// The first search match on `line` that covers byte `b`, among `ms[k..]`.
pub open spec fn match_from(ms: Seq<(usize, usize, usize)>, k: int, line: int, b: int) -> Option<int>
    decreases ms.len() - k,
{
    if k < 0 || k >= ms.len() {
        None
    } else if ms[k].0 == line && ms[k].1 <= b && b < ms[k].2 {
        Some(k)
    } else {
        match_from(ms, k + 1, line, b)
    }
}

/// How the character at byte `b` of line `line` is painted: a search match
/// wins over the syntax runs.
pub open spec fn paint_at(runs: Seq<StyleRun>, search: PanelSearch, line: int, b: int) -> Paint {
    match match_from(search.matches@, 0, line, b) {
        Some(k) => if k == search.current { Paint::CurrentMatch } else { Paint::Match },
        None => match run_from(runs, 0, 0, b) {
            Some(j) => Paint::Run { fg: runs[j].fg, bg: runs[j].bg },
            None => Paint::Plain,
        },
    }
}

/// The total length the runs cover.
pub open spec fn runs_total(runs: Seq<StyleRun>, n: int) -> int
    decreases n,
{
    if n <= 0 { 0 } else { runs_total(runs, n - 1) + runs[n - 1].len }
}

/// The UTF-8 width of a character.
pub open spec fn char_width(c: char) -> int {
    vstd::utf8::encode_scalar(c as u32).len() as int
}

fn utf8_width(c: char) -> (w: usize)
    ensures
        w as int == char_width(c),
{
    proof { vstd::utf8::char_is_scalar(c); }
    let v = c as u32;
    if v <= 0x7F { 1 } else if v <= 0x7FF { 2 } else if v <= 0xFFFF { 3 } else { 4 }
}

proof fn lemma_encode_take_step(text: Seq<char>, k: int)
    requires
        0 <= k < text.len(),
    ensures
        byte_at(text, k + 1) == byte_at(text, k) + char_width(text[k]),
{
    lemma_encode_concat(text.take(k), seq![text[k]]);
    assert(text.take(k + 1) =~= text.take(k) + seq![text[k]]);
    let one = seq![text[k]];
    assert(one.drop_first() =~= Seq::<char>::empty());
    assert(vstd::utf8::encode_utf8(one.drop_first()) =~= Seq::<u8>::empty());
    assert(vstd::utf8::encode_utf8(one) == vstd::utf8::encode_scalar(one[0] as u32) + vstd::utf8::encode_utf8(one.drop_first()));
    assert(vstd::utf8::encode_scalar(one[0] as u32) + Seq::<u8>::empty() =~= vstd::utf8::encode_scalar(one[0] as u32));
}

/// UTF-8 encoding distributes over concatenation.
pub proof fn lemma_encode_concat(a: Seq<char>, b: Seq<char>)
    ensures
        vstd::utf8::encode_utf8(a + b) == vstd::utf8::encode_utf8(a) + vstd::utf8::encode_utf8(b),
    decreases a.len(),
{
    if a.len() == 0 {
        assert(a + b =~= b);
        assert(vstd::utf8::encode_utf8(a) =~= Seq::<u8>::empty());
        assert(Seq::<u8>::empty() + vstd::utf8::encode_utf8(b) =~= vstd::utf8::encode_utf8(b));
    } else {
        lemma_encode_concat(a.drop_first(), b);
        assert((a + b).drop_first() =~= a.drop_first() + b);
        assert((a + b)[0] == a[0]);
        let ea = vstd::utf8::encode_scalar(a[0] as u32);
        assert(ea + (vstd::utf8::encode_utf8(a.drop_first()) + vstd::utf8::encode_utf8(b))
            =~= (ea + vstd::utf8::encode_utf8(a.drop_first())) + vstd::utf8::encode_utf8(b));
    }
}

proof fn lemma_run_step(runs: Seq<StyleRun>, j: int, base: int, b: int)
    requires
        0 <= j <= runs.len(),
        base == runs_total(runs, j),
        j > 0 ==> runs_total(runs, j) <= b,
    ensures
        run_from(runs, 0, 0, b) == run_from(runs, j, base, b),
    decreases j,
{
    if j > 0 {
        if j > 1 {
            lemma_runs_total_mono(runs, j - 1, j);
        }
        lemma_run_step(runs, j - 1, runs_total(runs, j - 1), b);
    }
}

fn paint_of(runs: &[StyleRun], run_idx: usize, search: &PanelSearch, line: usize, b: usize) -> (p: Paint)
    requires
        run_idx <= runs@.len(),
        run_from(runs@, 0, 0, b as int) == (if run_idx < runs@.len() { Some(run_idx as int) } else { None }),
    ensures
        p == paint_at(runs@, *search, line as int, b as int),
{
    let ms = &search.matches;
    let mut k: usize = 0;
    while k < ms.len()
        invariant
            k <= ms@.len(),
            ms@ == search.matches@,
            match_from(ms@, 0, line as int, b as int) == match_from(ms@, k as int, line as int, b as int),
        decreases ms@.len() - k,
    {
        let (l, s, e) = ms[k];
        if l == line && s <= b && b < e {
            assert(match_from(ms@, k as int, line as int, b as int) == Some(k as int));
            return if k == search.current { Paint::CurrentMatch } else { Paint::Match };
        }
        k = k + 1;
    }
    if run_idx < runs.len() {
        Paint::Run { fg: runs[run_idx].fg, bg: runs[run_idx].bg }
    } else {
        Paint::Plain
    }
}

/// The painted characters of content line `line` from column `hscroll` on:
/// each character with the paint of its first byte.
pub fn line_cells(text: &str, runs: &[StyleRun], hscroll: usize, line: usize, search: &PanelSearch) -> (r: Vec<(char, Paint)>)
    requires
        runs_total(runs@, runs@.len() as int) <= usize::MAX,
        vstd::utf8::encode_utf8(text@).len() <= usize::MAX,
    ensures
        r@.len() == (if text@.len() > hscroll { text@.len() - hscroll } else { 0 }),
        forall|i: int| 0 <= i < r@.len() ==> (#[trigger] r@[i]).0 == text@[hscroll + i]
            && r@[i].1 == paint_at(runs@, *search, line as int, byte_at(text@, hscroll + i)),
{
    let cs = chars_of(text);
    let mut out: Vec<(char, Paint)> = Vec::new();
    let mut run_idx: usize = 0;
    let mut run_base: usize = 0;
    let mut b: usize = 0;
    let mut k: usize = 0;
    proof {
        assert forall|i: int| 0 <= i <= runs@.len() implies #[trigger] runs_total(runs@, i) <= usize::MAX by {
            lemma_runs_total_mono(runs@, i, runs@.len() as int);
        }
    }
    while k < cs.len()
        invariant
            k <= cs@.len(),
            cs@ == text@,
            b as int == byte_at(text@, k as int),
            runs_total(runs@, runs@.len() as int) <= usize::MAX,
            vstd::utf8::encode_utf8(text@).len() <= usize::MAX,
            run_idx <= runs@.len(),
            run_base as int == runs_total(runs@, run_idx as int),
            run_idx > 0 ==> runs_total(runs@, run_idx as int) <= b,
            forall|i: int| 0 <= i <= runs@.len() ==> #[trigger] runs_total(runs@, i) <= usize::MAX,
            out@.len() == (if k > hscroll { k - hscroll } else { 0 }),
            forall|i: int| 0 <= i < out@.len() ==> (#[trigger] out@[i]).0 == text@[hscroll + i]
                && out@[i].1 == paint_at(runs@, *search, line as int, byte_at(text@, hscroll + i)),
        decreases cs@.len() - k,
    {
        while run_idx < runs.len() && run_base + runs[run_idx].len <= b
            invariant
                run_idx <= runs@.len(),
                run_base as int == runs_total(runs@, run_idx as int),
                forall|i: int| 0 <= i <= runs@.len() ==> #[trigger] runs_total(runs@, i) <= usize::MAX,
                run_idx < runs@.len() ==> runs_total(runs@, run_idx + 1) == run_base + runs@[run_idx as int].len,
                run_idx > 0 ==> runs_total(runs@, run_idx as int) <= b,
            decreases runs@.len() - run_idx,
        {
            assert(runs_total(runs@, run_idx + 1) <= usize::MAX);
            run_base = run_base + runs[run_idx].len;
            run_idx = run_idx + 1;
        }
        proof {
            lemma_run_step(runs@, run_idx as int, run_base as int, b as int);
            if run_idx < runs@.len() {
                assert(run_from(runs@, run_idx as int, run_base as int, b as int) == Some(run_idx as int));
            }
        }
        let p = paint_of(runs, run_idx, search, line, b);
        if k >= hscroll {
            out.push((cs[k], p));
        }
        proof {
            lemma_encode_take_step(text@, k as int);
            lemma_byte_at_bounded(text@, k as int + 1);
        }
        b = b + utf8_width(cs[k]);
        k = k + 1;
    }
    out
}

proof fn lemma_runs_total_mono(runs: Seq<StyleRun>, i: int, n: int)
    requires
        0 <= i <= n <= runs.len(),
    ensures
        runs_total(runs, i) <= runs_total(runs, n),
    decreases n - i,
{
    if i < n {
        lemma_runs_total_mono(runs, i, n - 1);
    }
}

proof fn lemma_byte_at_bounded(text: Seq<char>, k: int)
    requires
        0 <= k <= text.len(),
    ensures
        byte_at(text, k) <= vstd::utf8::encode_utf8(text).len(),
{
    lemma_encode_concat(text.take(k), text.skip(k));
    assert(text.take(k) + text.skip(k) =~= text);
}

// --- border glyphs -------------------------------------------------------------------

/// The box-drawing character for the directions (north 1, south 2, east 4,
/// west 8) that meet in a border cell.
pub open spec fn glyph_spec(mask: u8) -> char {
    if mask == 3 || mask == 1 || mask == 2 { '\u{2502}' }
    else if mask == 12 || mask == 4 || mask == 8 { '\u{2500}' }
    else if mask == 6 { '\u{250C}' }
    else if mask == 10 { '\u{2510}' }
    else if mask == 5 { '\u{2514}' }
    else if mask == 9 { '\u{2518}' }
    else if mask == 7 { '\u{251C}' }
    else if mask == 11 { '\u{2524}' }
    else if mask == 14 { '\u{252C}' }
    else if mask == 13 { '\u{2534}' }
    else if mask == 15 { '\u{253C}' }
    else { ' ' }
}

/// The box-drawing character of a connection mask.
pub fn glyph(mask: u8) -> (c: char)
    ensures
        c == glyph_spec(mask),
{
    match mask {
        3 => '\u{2502}',
        12 => '\u{2500}',
        6 => '\u{250C}',
        10 => '\u{2510}',
        5 => '\u{2514}',
        9 => '\u{2518}',
        7 => '\u{251C}',
        11 => '\u{2524}',
        14 => '\u{252C}',
        13 => '\u{2534}',
        15 => '\u{253C}',
        1 | 2 => '\u{2502}',
        4 | 8 => '\u{2500}',
        _ => ' ',
    }
}

// --- the property panel ----------------------------------------------------------------

/// The first `n` characters of `s` and an ellipsis.
pub open spec fn cut_spec(s: Seq<char>, n: int) -> Seq<char> {
    s.take(n).push('\u{2026}')
}

fn cut(s: &[char], n: usize) -> (r: String)
    requires
        n <= s@.len(),
    ensures
        r@ == cut_spec(s@, n as int),
{
    let mut out = String::new();
    let mut i: usize = 0;
    while i < n
        invariant
            i <= n <= s@.len(),
            out@ == s@.take(i as int),
        decreases n - i,
    {
        push_char(&mut out, s[i]);
        i = i + 1;
        assert(out@ =~= s@.take(i as int));
    }
    push_char(&mut out, '\u{2026}');
    out
}

/// The value of a `LABEL: value` line at `width` columns: cut with an
/// ellipsis when it does not fit after the label (and there is room for more
/// than the ellipsis).
pub open spec fn prop_value_spec(label: Seq<char>, value: Seq<char>, width: int) -> Seq<char> {
    let prefix = label.len() + 2;
    let avail = if width > prefix { width - prefix } else { 0 };
    if value.len() > avail && avail > 1 { cut_spec(value, avail - 1) } else { value }
}

/// The value of a `LABEL: value` line, fitted to `width` columns.
pub fn prop_value(label: &str, value: &str, width: usize) -> (r: String)
    ensures
        r@ == prop_value_spec(label@, value@, width as int),
{
    let prefix = chars_of(label).len() as u128 + 2;
    let avail: u128 = if (width as u128) > prefix { width as u128 - prefix } else { 0 };
    let cs = chars_of(value);
    if (cs.len() as u128) > avail && avail > 1 {
        cut(cs.as_slice(), (avail - 1) as usize)
    } else {
        string_of(cs.as_slice())
    }
}

/// How many characters of a navigator name are shown.
pub const NAME_CAP: usize = 14;

/// A navigator name cut to the cap (with an ellipsis as its last character).
pub open spec fn trunc_spec(s: Seq<char>) -> Seq<char> {
    if s.len() > NAME_CAP { cut_spec(s, NAME_CAP - 1) } else { s }
}

/// A navigator name cut to the cap.
pub fn trunc(s: &str) -> (r: String)
    ensures
        r@ == trunc_spec(s@),
{
    let cs = chars_of(s);
    if cs.len() > NAME_CAP {
        cut(cs.as_slice(), NAME_CAP - 1)
    } else {
        string_of(cs.as_slice())
    }
}

/// `n` in decimal, zero-padded to two digits.
pub open spec fn two_digits(n: int) -> Seq<char> {
    if 0 <= n < 10 { seq!['0', crate::text::digit_char(n)] } else { crate::text::int_decimal(n) }
}

fn push_two(s: &mut String, n: i64)
    ensures
        final(s)@ == old(s)@ + two_digits(n as int),
{
    if 0 <= n && n < 10 {
        push_char(s, '0');
        let ds = crate::text::i64_to_string(n);
        push_str(s, ds.as_str());
        assert(crate::text::int_decimal(n as int) == seq![crate::text::digit_char(n as int)]);
        assert(final(s)@ =~= old(s)@ + two_digits(n as int)) by {
            assert(s@ == old(s)@ + seq!['0'] + crate::text::int_decimal(n as int));
        }
    } else {
        let ds = crate::text::i64_to_string(n);
        push_str(s, ds.as_str());
    }
}

/// A broken-down local time as the property panel shows it: `full` gives
/// `YY-MM-DD HH:MM:SS` (the year modulo 100), else `MM-DD HH:MM`. The month
/// is 1-based.
pub open spec fn clock_spec(year: i64, month: i64, day: i64, h: i64, m: i64, s: i64, full: bool) -> Seq<char> {
    if full {
        two_digits(year_mod(year)) + "-"@ + two_digits(month as int) + "-"@ + two_digits(day as int) + " "@
            + two_digits(h as int) + ":"@ + two_digits(m as int) + ":"@ + two_digits(s as int)
    } else {
        two_digits(month as int) + "-"@ + two_digits(day as int) + " "@ + two_digits(h as int) + ":"@ + two_digits(m as int)
    }
}

/// The year modulo 100, keeping the year's sign.
pub open spec fn year_mod(year: i64) -> int {
    if year >= 0 { (year as int) % 100 } else { -((-(year as int)) % 100) }
}

/// Format a broken-down local time.
pub fn clock_text(year: i64, month: i64, day: i64, h: i64, m: i64, s: i64, full: bool) -> (r: String)
    requires
        year > i64::MIN,
    ensures
        r@ == clock_spec(year, month, day, h, m, s, full),
{
    proof { reveal_strlit("-"); reveal_strlit(" "); reveal_strlit(":"); }
    let mut out = String::new();
    if full {
        let y: i64 = if year >= 0 { year % 100 } else { -((-year) % 100) };
        push_two(&mut out, y);
        push_str(&mut out, "-");
    }
    push_two(&mut out, month);
    push_str(&mut out, "-");
    push_two(&mut out, day);
    push_str(&mut out, " ");
    push_two(&mut out, h);
    push_str(&mut out, ":");
    push_two(&mut out, m);
    if full {
        push_str(&mut out, ":");
        push_two(&mut out, s);
    }
    out
}

// --- the directory navigator ----------------------------------------------------------

/// The gap between navigator columns.
pub const NAV_GAP: usize = 3;

/// One navigator column: a directory's child directories (sorted) and which of
/// them lies on the path; `is_cwd` marks the column of the current directory.
pub struct NavColumn {
    pub sibs: Vec<String>,
    pub idx: usize,
    pub is_cwd: bool,
}

/// `x` inserted before the first name it sorts before (equal names keep order).
pub open spec fn ins_name(s: Seq<Seq<char>>, x: Seq<char>) -> Seq<Seq<char>>
    decreases s.len(),
{
    if s.len() == 0 {
        seq![x]
    } else if seq_less(x, s[0]) {
        seq![x] + s
    } else {
        seq![s[0]] + ins_name(s.drop_first(), x)
    }
}

/// `names[0..n]` sorted.
pub open spec fn sorted_names(names: Seq<Seq<char>>, n: int) -> Seq<Seq<char>>
    decreases n,
{
    if n <= 0 { Seq::empty() } else { ins_name(sorted_names(names, n - 1), names[n - 1]) }
}

/// The names a column lists: the visible ones, and the one on the path even
/// when hidden.
pub open spec fn shown_names(names: Seq<Seq<char>>, sel: Seq<char>, n: int) -> Seq<Seq<char>>
    decreases n,
{
    if n <= 0 {
        Seq::empty()
    } else {
        let prev = shown_names(names, sel, n - 1);
        let x = names[n - 1];
        if x.len() > 0 && x[0] == '.' && x != sel { prev } else { prev.push(x) }
    }
}

/// The first index of `sel` in `s` from `k` on.
pub open spec fn index_from(s: Seq<Seq<char>>, sel: Seq<char>, k: int) -> Option<int>
    decreases s.len() - k,
{
    if k < 0 || k >= s.len() { None } else if s[k] == sel { Some(k) } else { index_from(s, sel, k + 1) }
}

proof fn lemma_ins_name_at(s: Seq<Seq<char>>, x: Seq<char>, i: int)
    requires
        0 <= i <= s.len(),
        forall|j: int| 0 <= j < i ==> !seq_less(x, #[trigger] s[j]),
        i < s.len() ==> seq_less(x, s[i]),
    ensures
        ins_name(s, x) == s.take(i) + seq![x] + s.skip(i),
    decreases s.len(),
{
    if s.len() == 0 {
        assert(s.take(i) + seq![x] + s.skip(i) =~= seq![x]);
    } else if i == 0 {
        assert(s.take(0) + seq![x] + s.skip(0) =~= seq![x] + s);
    } else {
        let t = s.drop_first();
        assert forall|j: int| 0 <= j < i - 1 implies !seq_less(x, #[trigger] t[j]) by {
            assert(t[j] == s[j + 1]);
        }
        lemma_ins_name_at(t, x, i - 1);
        assert(seq![s[0]] + (t.take(i - 1) + seq![x] + t.skip(i - 1)) =~= s.take(i) + seq![x] + s.skip(i));
    }
}

/// A navigator column from a directory's child directory names (in any
/// order): hidden names dropped (but the one on the path), sorted, with the
/// index of the one on the path (appended when it is not among them).
pub fn nav_column(names: &Vec<String>, sel: &str, is_cwd: bool) -> (c: NavColumn)
    ensures
        c.is_cwd == is_cwd,
        ({
            let sorted = sorted_names(shown_names(crate::state::views(names@), sel@, names@.len() as int),
                shown_names(crate::state::views(names@), sel@, names@.len() as int).len() as int);
            match index_from(sorted, sel@, 0) {
                Some(i) => crate::state::views(c.sibs@) == sorted && c.idx == i,
                None => crate::state::views(c.sibs@) == sorted.push(sel@) && c.idx == sorted.len(),
            }
        }),
{
    let ghost nv = crate::state::views(names@);
    let mut shown: Vec<String> = Vec::new();
    let mut i: usize = 0;
    assert(crate::state::views(shown@) =~= shown_names(nv, sel@, 0));
    while i < names.len()
        invariant
            i <= names@.len(),
            nv == crate::state::views(names@),
            crate::state::views(shown@) == shown_names(nv, sel@, i as int),
        decreases names@.len() - i,
    {
        let n = names[i].as_str();
        let cs = chars_of(n);
        let hidden = cs.len() > 0 && cs[0] == '.' && !str_eq(n, sel);
        if !hidden {
            let ghost before = crate::state::views(shown@);
            shown.push(names[i].clone());
            assert(crate::state::views(shown@) =~= before.push(nv[i as int]));
        }
        i = i + 1;
    }
    let ghost sh = crate::state::views(shown@);
    let mut sorted: Vec<String> = Vec::new();
    let mut k: usize = 0;
    assert(crate::state::views(sorted@) =~= sorted_names(sh, 0));
    while k < shown.len()
        invariant
            k <= shown@.len(),
            sh == crate::state::views(shown@),
            crate::state::views(sorted@) == sorted_names(sh, k as int),
        decreases shown@.len() - k,
    {
        let x = shown[k].clone();
        let ghost s0 = crate::state::views(sorted@);
        let mut p: usize = 0;
        while p < sorted.len() && !str_less(x.as_str(), sorted[p].as_str())
            invariant
                p <= sorted@.len(),
                s0 == crate::state::views(sorted@),
                x@ == sh[k as int],
                forall|j: int| 0 <= j < p ==> !seq_less(x@, #[trigger] s0[j]),
            decreases sorted@.len() - p,
        {
            p = p + 1;
        }
        proof { lemma_ins_name_at(s0, x@, p as int); }
        sorted.insert(p, x);
        assert(crate::state::views(sorted@) =~= s0.take(p as int) + seq![sh[k as int]] + s0.skip(p as int));
        k = k + 1;
    }
    let ghost so = crate::state::views(sorted@);
    let mut q: usize = 0;
    while q < sorted.len() && !str_eq(sorted[q].as_str(), sel)
        invariant
            q <= sorted@.len(),
            so == crate::state::views(sorted@),
            index_from(so, sel@, 0) == index_from(so, sel@, q as int),
        decreases sorted@.len() - q,
    {
        q = q + 1;
    }
    if q < sorted.len() {
        NavColumn { sibs: sorted, idx: q, is_cwd }
    } else {
        let ghost before = crate::state::views(sorted@);
        sorted.push(sel.to_owned());
        assert(crate::state::views(sorted@) =~= before.push(sel@));
        NavColumn { sibs: sorted, idx: q, is_cwd }
    }
}

/// The name at row `r` of a column's window of `rows` rows centred (at row
/// `mid`) on the path: cut to the cap, or nothing past the column's ends.
pub open spec fn window_name(sibs: Seq<String>, idx: int, mid: int, r: int) -> Option<Seq<char>> {
    let j = idx + r - mid;
    if 0 <= j < sibs.len() { Some(trunc_spec(sibs[j]@)) } else { None }
}

/// The names of a column's window, row by row.
pub fn nav_window(c: &NavColumn, rows: usize, mid: usize) -> (w: Vec<Option<String>>)
    requires
        c.idx + rows <= usize::MAX,
    ensures
        w@.len() == rows,
        forall|r: int| 0 <= r < rows ==> crate::path::opt_view(#[trigger] w@[r]) == window_name(c.sibs@, c.idx as int, mid as int, r),
{
    let mut out: Vec<Option<String>> = Vec::new();
    let mut r: usize = 0;
    while r < rows
        invariant
            r <= rows,
            c.idx + rows <= usize::MAX,
            out@.len() == r,
            forall|q: int| 0 <= q < r ==> crate::path::opt_view(#[trigger] out@[q]) == window_name(c.sibs@, c.idx as int, mid as int, q),
        decreases rows - r,
    {
        let top = c.idx + r;
        let name = if top >= mid && top - mid < c.sibs.len() { Some(trunc(c.sibs[top - mid].as_str())) } else { None };
        out.push(name);
        r = r + 1;
    }
    out
}

/// The widest name in the first `n` rows of a column's window.
pub open spec fn widest_window(sibs: Seq<String>, idx: int, mid: int, n: int) -> Option<int>
    decreases n,
{
    if n <= 0 {
        None
    } else {
        let prev = widest_window(sibs, idx, mid, n - 1);
        match window_name(sibs, idx, mid, n - 1) {
            Some(s) => match prev {
                Some(p) => Some(if (s.len() as int) > p { s.len() as int } else { p }),
                None => Some(s.len() as int),
            },
            None => prev,
        }
    }
}

/// A column's width: its widest windowed name (1 when the window is empty).
pub fn nav_width(c: &NavColumn, rows: usize, mid: usize) -> (w: usize)
    requires
        c.idx + rows <= usize::MAX,
    ensures
        w as int == (match widest_window(c.sibs@, c.idx as int, mid as int, rows as int) { Some(x) => x, None => 1 }),
{
    let win = nav_window(c, rows, mid);
    let mut best: Option<usize> = None;
    let mut r: usize = 0;
    while r < win.len()
        invariant
            r <= win@.len(),
            win@.len() == rows,
            forall|q: int| 0 <= q < rows ==> crate::path::opt_view(#[trigger] win@[q]) == window_name(c.sibs@, c.idx as int, mid as int, q),
            match best { Some(b) => widest_window(c.sibs@, c.idx as int, mid as int, r as int) == Some(b as int), None => widest_window(c.sibs@, c.idx as int, mid as int, r as int) is None },
        decreases win@.len() - r,
    {
        assert(crate::path::opt_view(win@[r as int]) == window_name(c.sibs@, c.idx as int, mid as int, r as int));
        match &win[r] {
            Some(s) => {
                let n = chars_of(s.as_str()).len();
                best = match best {
                    Some(b) => Some(if n > b { n } else { b }),
                    None => Some(n),
                };
            }
            None => {}
        }
        r = r + 1;
    }
    match best {
        Some(b) => b,
        None => 1,
    }
}

/// Which columns fit, scanning from the last one leftwards: each adds its
/// width and (but the last) a gap, while the total stays within `avail`.
/// The result is the first column shown and the total width.
pub open spec fn nav_fit(widths: Seq<usize>, avail: int, i: int, total: int, start: int) -> (int, int)
    decreases i + 1,
{
    if i < 0 {
        (start, total)
    } else {
        let add = widths[i] + if i + 1 < widths.len() { NAV_GAP as int } else { 0 };
        if total + add > avail { (start, total) } else { nav_fit(widths, avail, i - 1, total + add, i) }
    }
}

/// The navigator's placement: the first column shown (the rightmost columns
/// that fit `avail` with the gaps between them) and their total width.
pub fn nav_placement(widths: &Vec<usize>, avail: usize) -> (r: (usize, usize))
    requires
        widths@.len() >= 1,
    ensures
        (r.0 as int, r.1 as int) == nav_fit(widths@, avail as int, widths@.len() - 1, 0, widths@.len() - 1),
{
    let n = widths.len();
    let mut start: usize = n - 1;
    let mut total: usize = 0;
    let mut i: usize = n;
    while i > 0
        invariant
            i <= n,
            n == widths@.len(),
            total <= avail,
            start < n,
            nav_fit(widths@, avail as int, n - 1, 0, n - 1) == nav_fit(widths@, avail as int, i - 1, total as int, start as int),
        decreases i,
    {
        let j = i - 1;
        let gap: usize = if j + 1 < n { NAV_GAP } else { 0 };
        if widths[j] > avail - total || gap > avail - total - widths[j] {
            return (start, total);
        }
        total = total + widths[j] + gap;
        start = j;
        i = i - 1;
    }
    (start, total)
}

} // verus!
