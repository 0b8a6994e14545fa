//! The geometry the renderer measures and keeps between frames: the file
//! list's column layout, the scroll window that follows a cursor, the bounds
//! of the function panel's scroll, the panel title, and the notice line's
//! lifetime. Painting is the renderer's part.

use vstd::prelude::*;
use crate::path::{file_name, path_file_name};
use crate::reducer::Notice;
use crate::state::{contains_str, views, Entry, ListGeom, ListLayout, PanelSearch};
use crate::text::{chars_of, nat_decimal, push_char, push_decimal, push_str};

verus! {

/// Gap between adjacent file-list columns.
pub const LIST_GAP: usize = 2;

/// Minimum cell width of the Grid layout.
pub const GRID_MIN_CELL: usize = 10;

/// How long a notice stays on screen, in milliseconds.
pub const NOTICE_TTL_MS: u64 = 4000;

// --- scroll windows -----------------------------------------------------------------

/// The largest scroll offset that keeps content on screen: the last row rests
/// at the bottom of the viewport.
pub open spec fn max_scroll_spec(total: int, viewport: int) -> int {
    if total > viewport { total - viewport } else { 0 }
}

/// The largest scroll offset that keeps content on screen.
pub fn max_scroll(total: usize, viewport: usize) -> (r: usize)
    ensures
        r == max_scroll_spec(total as int, viewport as int),
{
    total.saturating_sub(viewport)
}

/// The window offset that keeps the cursor visible: the previous offset
/// (pulled back to the last page), moved only as far as needed when the
/// cursor is above or below it, and never past the last page.
pub open spec fn follow_spec(prev: int, cursor: int, viewport: int, total: int) -> int {
    if viewport == 0 || total == 0 {
        0
    } else {
        let max_off = max_scroll_spec(total, viewport);
        let off = if prev < max_off { prev } else { max_off };
        let off2 = if cursor < off { cursor } else if cursor >= off + viewport { cursor + 1 - viewport } else { off };
        if off2 < max_off { off2 } else { max_off }
    }
}

/// Adjust a stored top-of-window offset so `cursor` stays visible in a window
/// of `viewport` rows over `total` items, scrolling only when the cursor
/// crosses an edge and never past the last page.
pub fn follow_cursor(prev: usize, cursor: usize, viewport: usize, total: usize) -> (r: usize)
    ensures
        r == follow_spec(prev as int, cursor as int, viewport as int, total as int),
{
    if viewport == 0 || total == 0 {
        return 0;
    }
    let max_off = total.saturating_sub(viewport);
    let mut off = if prev < max_off { prev } else { max_off };
    if cursor < off {
        off = cursor;
    } else if cursor - off >= viewport {
        off = cursor - viewport + 1;
    }
    if off < max_off { off } else { max_off }
}

/// The window never passes the last page, and a cursor among the items is
/// always inside it.
pub proof fn law_follow_keeps_the_cursor_visible(prev: int, cursor: int, viewport: int, total: int)
    requires
        0 <= prev,
        0 <= cursor < total,
        0 < viewport,
    ensures
        0 <= follow_spec(prev, cursor, viewport, total) <= max_scroll_spec(total, viewport),
        follow_spec(prev, cursor, viewport, total) <= cursor < follow_spec(prev, cursor, viewport, total) + viewport,
{
}

/// While the cursor stays inside a window that is on the last page or above
/// it, the window does not move.
pub proof fn law_window_holds(prev: int, cursor: int, viewport: int, total: int)
    requires
        0 <= prev <= max_scroll_spec(total, viewport),
        prev <= cursor < prev + viewport,
        0 < viewport,
        0 < total,
    ensures
        follow_spec(prev, cursor, viewport, total) == prev,
{
}

/// Content that fits the viewport never scrolls.
pub proof fn law_fitting_content_never_scrolls(prev: int, cursor: int, viewport: int, total: int)
    requires
        0 <= prev,
        0 <= cursor,
        total <= viewport,
    ensures
        follow_spec(prev, cursor, viewport, total) == 0,
{
}

/// Scroll state for a panel's right-border scrollbar.
#[derive(Clone, Copy)]
pub struct ScrollInfo {
    pub total: usize,
    pub viewport: usize,
    pub position: usize,
}

/// Window offsets and measured bounds kept across frames, so a list scrolls
/// only when its cursor leaves the window. `function_max`/`function_hmax` are
/// the function panel's scroll bounds at the last render (`usize::MAX` when no
/// scrollable frame was drawn); `list_cols`/`list_rows` the file list's
/// measured geometry.
pub struct ScrollMemory {
    pub file: usize,
    pub candidates: usize,
    pub function_max: usize,
    pub function_hmax: usize,
    pub list_cols: usize,
    pub list_rows: usize,
}

impl ScrollMemory {
    /// Fresh memory: windows at the top, no bounds measured, a single column.
    pub fn new() -> (m: ScrollMemory)
        ensures
            m.file == 0 && m.candidates == 0,
            m.function_max == usize::MAX && m.function_hmax == usize::MAX,
            m.list_cols == 1 && m.list_rows == 0,
    {
        ScrollMemory { file: 0, candidates: 0, function_max: usize::MAX, function_hmax: usize::MAX, list_cols: 1, list_rows: 0 }
    }

    /// The file-list geometry measured at the last render.
    pub fn list_geom(&self) -> (g: ListGeom)
        ensures
            g.cols == self.list_cols && g.rows == self.list_rows,
    {
        ListGeom { cols: self.list_cols, rows: self.list_rows }
    }

    /// The function panel's max vertical scroll offset at the last render.
    pub fn function_max(&self) -> (r: usize)
        ensures
            r == self.function_max,
    {
        self.function_max
    }

    /// The function panel's max horizontal scroll offset at the last render.
    pub fn function_hmax(&self) -> (r: usize)
        ensures
            r == self.function_hmax,
    {
        self.function_hmax
    }

    /// Mark this render as having no function-panel scroll bounds yet.
    pub fn reset_function_bounds(&mut self)
        ensures
            *final(self) == (ScrollMemory { function_max: usize::MAX, function_hmax: usize::MAX, ..*old(self) }),
    {
        self.function_max = usize::MAX;
        self.function_hmax = usize::MAX;
    }
}

impl Default for ScrollMemory {
    fn default() -> (m: ScrollMemory)
        ensures
            m.file == 0 && m.candidates == 0,
            m.function_max == usize::MAX && m.function_hmax == usize::MAX,
            m.list_cols == 1 && m.list_rows == 0,
    {
        ScrollMemory::new()
    }
}

// --- the file list's geometry -----------------------------------------------------

/// `s` cut or right-padded with spaces to exactly `w` characters.
pub open spec fn fit_spec(s: Seq<char>, w: int) -> Seq<char> {
    if s.len() > w { s.take(w) } else { s + Seq::new((w - s.len()) as nat, |i: int| ' ') }
}

/// Truncate (by characters) or right-pad `s` to exactly `width` columns.
pub fn fit(s: &str, width: usize) -> (r: String)
    ensures
        r@ == fit_spec(s@, width as int),
{
    let cs = chars_of(s);
    let mut out = String::new();
    let mut i: usize = 0;
    while i < cs.len() && i < width
        invariant
            i <= cs@.len(),
            i <= width,
            cs@ == s@,
            out@ == cs@.take(i as int),
        decreases cs@.len() - i,
    {
        push_char(&mut out, cs[i]);
        i = i + 1;
        assert(out@ =~= cs@.take(i as int));
    }
    let ghost text = out@;
    let mut k: usize = i;
    while k < width
        invariant
            i <= k <= width,
            out@ == text + Seq::new((k - i) as nat, |j: int| ' '),
        decreases width - k,
    {
        push_char(&mut out, ' ');
        k = k + 1;
        assert(out@ =~= text + Seq::new((k - i) as nat, |j: int| ' '));
    }
    assert(out@ =~= fit_spec(s@, width as int));
    out
}

/// An entry's cell: a `*` when selected (else a space), the name, and a `/`
/// for a directory (else a space).
pub open spec fn cell_spec(e: Entry, selection: Seq<Seq<char>>) -> Seq<char> {
    seq![if selection.contains(e.path@) { '*' } else { ' ' }] + e.name@ + seq![if e.is_dir { '/' } else { ' ' }]
}

/// The display text of an entry's cell.
pub fn cell_text(e: &Entry, selection: &Vec<String>) -> (r: String)
    ensures
        r@ == cell_spec(*e, views(selection@)),
{
    let mut out = String::new();
    push_char(&mut out, if contains_str(selection, e.path.as_str()) { '*' } else { ' ' });
    push_str(&mut out, e.name.as_str());
    push_char(&mut out, if e.is_dir { '/' } else { ' ' });
    assert(out@ =~= cell_spec(*e, views(selection@)));
    out
}

/// The width of entry `i`'s cell.
pub open spec fn cell_w(es: Seq<Entry>, i: int) -> int {
    es[i].name@.len() as int + 2
}

/// The widest cell among `es[lo..hi]` (0 when there is none).
pub open spec fn widest(es: Seq<Entry>, lo: int, hi: int) -> int
    decreases hi - lo,
{
    if hi <= lo {
        0
    } else {
        let rest = widest(es, lo, hi - 1);
        if cell_w(es, hi - 1) > rest { cell_w(es, hi - 1) } else { rest }
    }
}

/// Rows needed for `n` items in `c` columns.
pub open spec fn rows_for(n: int, c: int) -> int {
    (n + c - 1) / c
}

/// The width of column `j` of `c` (column-major over `es`).
pub open spec fn column_width(es: Seq<Entry>, c: int, j: int) -> int {
    let rows = rows_for(es.len() as int, c);
    let end = if (j + 1) * rows < es.len() { (j + 1) * rows } else { es.len() as int };
    widest(es, j * rows, end)
}

/// The widths of columns `0..k` of `c`.
pub open spec fn column_widths(es: Seq<Entry>, c: int, k: int) -> Seq<int>
    decreases k,
{
    if k <= 0 { Seq::empty() } else { column_widths(es, c, k - 1).push(column_width(es, c, k - 1)) }
}

/// The sum of `s`.
pub open spec fn sum_of(s: Seq<int>) -> int
    decreases s.len(),
{
    if s.len() == 0 { 0 } else { sum_of(s.drop_last()) + s.last() }
}

/// `c` columns fit width `w`: their widths and the gaps between them.
pub open spec fn fits(es: Seq<Entry>, c: int, w: int) -> bool {
    sum_of(column_widths(es, c, c)) + LIST_GAP * (c - 1) <= w
}

/// The most columns, at most `c`, that fit.
pub open spec fn most_fitting(es: Seq<Entry>, c: int, w: int) -> Option<int>
    decreases c,
{
    if c <= 0 { None } else if fits(es, c, w) { Some(c) } else { most_fitting(es, c - 1, w) }
}

/// The least `k` from `k` on with `k * k >= n`.
pub open spec fn ceil_sqrt_from(n: int, k: int) -> int
    decreases n - k,
{
    if k * k >= n || k >= n { k } else { ceil_sqrt_from(n, k + 1) }
}

/// The least `k` with `k * k >= n`.
pub open spec fn ceil_sqrt(n: int) -> int {
    ceil_sqrt_from(n, 0)
}

/// The file list's geometry for a layout at width `w`: the column count, the
/// visual row count, and each column's width (column-major throughout). Rows
/// is one full-width column; Columns packs the most columns that fit, each as
/// wide as its widest cell (`ls -C`), else one column; Grid takes about the
/// square root of the count in columns, as many as cells of the minimum width
/// allow, with uniform cells.
pub open spec fn geometry_spec(es: Seq<Entry>, layout: ListLayout, w: int) -> (int, int, Seq<int>) {
    let n = es.len() as int;
    if n == 0 || w == 0 {
        (1, 0, seq![if w > 1 { w } else { 1 }])
    } else {
        match layout {
            ListLayout::Rows => (1, n, seq![w]),
            ListLayout::Columns => {
                let cap = (w + LIST_GAP) / (1 + LIST_GAP);
                let upper = if n < cap { n } else if cap > 1 { cap } else { 1 };
                match most_fitting(es, upper, w) {
                    Some(c) => (c, rows_for(n, c), column_widths(es, c, c)),
                    None => (1, n, seq![w]),
                }
            },
            ListLayout::Grid => {
                let max_fit = if w / GRID_MIN_CELL as int > 1 { w / GRID_MIN_CELL as int } else { 1 };
                let s = ceil_sqrt(n);
                let c0 = if s < 1 { 1 } else if s > max_fit { max_fit } else { s };
                let cols = if c0 < n { c0 } else { n };
                let cell = if w / cols > 1 { w / cols } else { 1 };
                (cols, rows_for(n, cols), Seq::new(cols as nat, |i: int| cell))
            },
        }
    }
}

fn isqrt_ceil(n: usize) -> (k: usize)
    requires
        n <= usize::MAX / 4,
    ensures
        k as int == ceil_sqrt(n as int),
        1 <= k <= n || n == 0,
{
    let mut k: usize = 0;
    while k < n && k * k < n
        invariant
            k <= n,
            n <= usize::MAX / 4,
            k * k <= usize::MAX,
            ceil_sqrt_from(n as int, 0) == ceil_sqrt_from(n as int, k as int),
        decreases n - k,
    {
        assert((k + 1) * (k + 1) <= usize::MAX) by (nonlinear_arith)
            requires k < n, k * k < n, n <= usize::MAX / 4;
        k = k + 1;
    }
    k
}

fn widest_in(es: &Vec<Entry>, lo: usize, hi: usize) -> (r: usize)
    requires
        lo <= hi <= es@.len(),
        forall|i: int| 0 <= i < es@.len() ==> cell_w(es@, i) <= usize::MAX,
    ensures
        r == widest(es@, lo as int, hi as int),
{
    let mut best: usize = 0;
    let mut j: usize = lo;
    while j < hi
        invariant
            lo <= j <= hi <= es@.len(),
            forall|i: int| 0 <= i < es@.len() ==> cell_w(es@, i) <= usize::MAX,
            best == widest(es@, lo as int, j as int),
        decreases hi - j,
    {
        assert(cell_w(es@, j as int) <= usize::MAX);
        let cw = chars_of(es[j].name.as_str()).len() + 2;
        if cw > best {
            best = cw;
        }
        j = j + 1;
    }
    best
}

proof fn lemma_sum_push(s: Seq<int>, x: int)
    ensures
        sum_of(s.push(x)) == sum_of(s) + x,
{
    assert(s.push(x).drop_last() =~= s);
}

proof fn lemma_widths_nonneg(es: Seq<Entry>, c: int, k: int)
    ensures
        sum_of(column_widths(es, c, k)) >= 0,
        column_widths(es, c, k).len() == if k > 0 { k } else { 0 },
    decreases k,
{
    if k > 0 {
        lemma_widths_nonneg(es, c, k - 1);
        lemma_sum_push(column_widths(es, c, k - 1), column_width(es, c, k - 1));
        lemma_widest_nonneg(es, k - 1, c);
    }
}

proof fn lemma_widest_nonneg(es: Seq<Entry>, j: int, c: int)
    ensures
        column_width(es, c, j) >= 0,
{
    let rows = rows_for(es.len() as int, c);
    let end = if (j + 1) * rows < es.len() { (j + 1) * rows } else { es.len() as int };
    lemma_widest_ge0(es, j * rows, end);
}

proof fn lemma_widest_ge0(es: Seq<Entry>, lo: int, hi: int)
    ensures
        widest(es, lo, hi) >= 0,
    decreases hi - lo,
{
    if hi > lo {
        lemma_widest_ge0(es, lo, hi - 1);
    }
}

/// Whether `c` columns fit, and their widths.
fn try_columns(es: &Vec<Entry>, c: usize, w: usize) -> (r: Option<Vec<usize>>)
    requires
        1 <= c <= es@.len(),
        es@.len() <= usize::MAX / 4,
        forall|i: int| 0 <= i < es@.len() ==> cell_w(es@, i) <= usize::MAX,
    ensures
        r is Some == fits(es@, c as int, w as int),
        r matches Some(v) ==> v@.len() == c && forall|i: int| 0 <= i < c ==> v@[i] as int == column_widths(es@, c as int, c as int)[i],
{
    let n = es.len();
    let rows = (n + c - 1) / c;
    assert(rows * c <= n + c - 1) by (nonlinear_arith)
        requires rows as int == (n + c - 1) as int / (c as int), c >= 1;
    let mut widths: Vec<usize> = Vec::new();
    let mut total: usize = 0;
    let mut over = false;
    let mut j: usize = 0;
    proof { lemma_widths_nonneg(es@, c as int, 0); }
    while j < c
        invariant
            j <= c <= n,
            n == es@.len(),
            n <= usize::MAX / 4,
            rows == rows_for(n as int, c as int),
            rows * c <= n + c - 1,
            forall|i: int| 0 <= i < es@.len() ==> cell_w(es@, i) <= usize::MAX,
            widths@.len() == j,
            column_widths(es@, c as int, j as int).len() == j,
            forall|i: int| 0 <= i < j ==> widths@[i] as int == column_widths(es@, c as int, j as int)[i],
            !over ==> total as int == sum_of(column_widths(es@, c as int, j as int)) && total <= w,
            over ==> sum_of(column_widths(es@, c as int, j as int)) > w,
        decreases c - j,
    {
        assert((j + 1) * rows <= rows * c) by (nonlinear_arith)
            requires j < c, rows >= 0;
        assert(j * rows <= (j + 1) * rows) by (nonlinear_arith)
            requires rows >= 0, j >= 0;
        let start = j * rows;
        let stop = if (j + 1) * rows < n { (j + 1) * rows } else { n };
        let cw = if start < stop { widest_in(es, start, stop) } else { 0 };
        assert(cw as int == column_width(es@, c as int, j as int));
        proof {
            lemma_sum_push(column_widths(es@, c as int, j as int), cw as int);
            lemma_widths_nonneg(es@, c as int, j as int);
            lemma_widths_nonneg(es@, c as int, j + 1);
        }
        let ghost before = widths@;
        widths.push(cw);
        if !over {
            if cw > w - total {
                over = true;
            } else {
                total = total + cw;
            }
        }
        j = j + 1;
        assert forall|i: int| 0 <= i < j implies widths@[i] as int == column_widths(es@, c as int, j as int)[i] by {
            assert(column_widths(es@, c as int, j as int) == column_widths(es@, c as int, j - 1).push(column_width(es@, c as int, j - 1)));
            if i < j - 1 {
                assert(widths@[i] == before[i]);
            }
        }
    }
    proof { lemma_widths_nonneg(es@, c as int, c as int); }
    if over || c - 1 > (w - total) / LIST_GAP {
        return None;
    }
    assert(LIST_GAP * (c - 1) <= w - total) by (nonlinear_arith)
        requires c - 1 <= (w - total) / 2, w >= total, LIST_GAP == 2;
    Some(widths)
}

/// The file list's geometry for the active layout at width `w`.
pub fn list_geometry(entries: &Vec<Entry>, layout: ListLayout, w: usize) -> (r: (usize, usize, Vec<usize>))
    requires
        entries@.len() <= usize::MAX / 4,
        w <= usize::MAX - LIST_GAP,
        forall|i: int| 0 <= i < entries@.len() ==> cell_w(entries@, i) <= usize::MAX,
    ensures
        r.0 as int == geometry_spec(entries@, layout, w as int).0,
        r.1 as int == geometry_spec(entries@, layout, w as int).1,
        r.2@.len() == geometry_spec(entries@, layout, w as int).2.len(),
        forall|i: int| 0 <= i < r.2@.len() ==> r.2@[i] as int == geometry_spec(entries@, layout, w as int).2[i],
{
    let n = entries.len();
    if n == 0 || w == 0 {
        let mut v: Vec<usize> = Vec::new();
        v.push(if w > 1 { w } else { 1 });
        return (1, 0, v);
    }
    match layout {
        ListLayout::Rows => {
            let mut v: Vec<usize> = Vec::new();
            v.push(w);
            (1, n, v)
        }
        ListLayout::Columns => {
            let cap = (w + LIST_GAP) / (1 + LIST_GAP);
            let upper = if n < cap { n } else if cap > 1 { cap } else { 1 };
            let mut c: usize = upper;
            while c > 0
                invariant
                    c <= upper <= n,
                    n == entries@.len(),
                    n > 0,
                    w > 0,
                    layout is Columns,
                    upper as int == (if n < (w as int + LIST_GAP) / (1 + LIST_GAP) { n as int } else if (w as int + LIST_GAP) / (1 + LIST_GAP) > 1 { (w as int + LIST_GAP) / (1 + LIST_GAP) } else { 1 }),
                    n <= usize::MAX / 4,
                    forall|i: int| 0 <= i < entries@.len() ==> cell_w(entries@, i) <= usize::MAX,
                    most_fitting(entries@, upper as int, w as int) == most_fitting(entries@, c as int, w as int),
                decreases c,
            {
                match try_columns(entries, c, w) {
                    Some(widths) => {
                        assert(rows_for(n as int, c as int) == (n + c - 1) / (c as int));
                        proof { lemma_widths_nonneg(entries@, c as int, c as int); }
                        return (c, (n + c - 1) / c, widths);
                    }
                    None => {}
                }
                c = c - 1;
            }
            let mut v: Vec<usize> = Vec::new();
            v.push(w);
            (1, n, v)
        }
        ListLayout::Grid => {
            let max_fit = if w / GRID_MIN_CELL > 1 { w / GRID_MIN_CELL } else { 1 };
            let s = isqrt_ceil(n);
            let c0 = if s < 1 { 1 } else if s > max_fit { max_fit } else { s };
            let cols = if c0 < n { c0 } else { n };
            let rows = (n + cols - 1) / cols;
            let cell = if w / cols > 1 { w / cols } else { 1 };
            let mut v: Vec<usize> = Vec::new();
            let mut i: usize = 0;
            while i < cols
                invariant
                    i <= cols,
                    v@.len() == i,
                    forall|k: int| 0 <= k < i ==> v@[k] == cell,
                decreases cols - i,
            {
                v.push(cell);
                i = i + 1;
            }
            (cols, rows, v)
        }
    }
}

// --- the content panel's title and width ---------------------------------------------

/// The panel title for the displayed file: its file name (else `content`),
/// with the match position appended while a search holds matches.
pub open spec fn title_spec(target: Option<Seq<char>>, search: PanelSearch) -> Seq<char> {
    let base = match target {
        Some(p) => match path_file_name(p) {
            Some(n) => n,
            None => "content"@,
        },
        None => "content"@,
    };
    if search.matches@.len() == 0 {
        base
    } else {
        base + "  ["@ + nat_decimal((search.current + 1) as nat) + "/"@ + nat_decimal(search.matches@.len()) + "]"@
    }
}

/// The panel title for the displayed file.
pub fn title(target: Option<&str>, search: &PanelSearch) -> (r: String)
    requires
        search.current < usize::MAX,
    ensures
        r@ == title_spec(match target { Some(t) => Some(t@), None => None }, *search),
{
    proof { reveal_strlit("content"); reveal_strlit("  ["); reveal_strlit("/"); reveal_strlit("]"); }
    let mut s = match target {
        Some(p) => match file_name(p) {
            Some(n) => n,
            None => "content".to_owned(),
        },
        None => "content".to_owned(),
    };
    if search.matches.len() == 0 {
        return s;
    }
    push_str(&mut s, "  [");
    push_decimal(&mut s, (search.current + 1) as u64);
    push_str(&mut s, "/");
    push_decimal(&mut s, search.matches.len() as u64);
    push_str(&mut s, "]");
    s
}

/// The longest line's character count among `lines[0..n]`.
pub open spec fn longest(lines: Seq<String>, n: int) -> int
    decreases n,
{
    if n <= 0 {
        0
    } else {
        let rest = longest(lines, n - 1);
        if lines[n - 1]@.len() > rest { lines[n - 1]@.len() as int } else { rest }
    }
}

/// The content's width in columns: its longest line's character count.
pub fn content_width(lines: &[String]) -> (r: usize)
    ensures
        r == longest(lines@, lines@.len() as int),
{
    let mut best: usize = 0;
    let mut i: usize = 0;
    while i < lines.len()
        invariant
            i <= lines@.len(),
            best == longest(lines@, i as int),
        decreases lines@.len() - i,
    {
        let c = chars_of(lines[i].as_str()).len();
        if c > best {
            best = c;
        }
        i = i + 1;
    }
    best
}

// --- the UI's own state ----------------------------------------------------------------

/// Render-only state: the notice on screen (with the time it was raised, in
/// milliseconds on the caller's monotonic clock) and the scroll memory.
pub struct UiManager {
    pub notice: Option<(Notice, u64)>,
    pub scroll: ScrollMemory,
}

impl UiManager {
    /// No notice, fresh scroll memory.
    pub fn new() -> (m: UiManager)
        ensures
            m.notice is None,
            m.scroll == ScrollMemory::new_spec(),
    {
        UiManager { notice: None, scroll: ScrollMemory::new() }
    }

    /// Show a notice from time `now` on.
    pub fn notify(&mut self, notice: Notice, now: u64)
        ensures
            final(self).notice == Some((notice, now)),
            final(self).scroll == old(self).scroll,
    {
        self.notice = Some((notice, now));
    }

    /// The function panel's max vertical scroll offset at the last render.
    pub fn function_max_scroll(&self) -> (r: usize)
        ensures
            r == self.scroll.function_max,
    {
        self.scroll.function_max()
    }

    /// The function panel's max horizontal scroll offset at the last render.
    pub fn function_hmax_scroll(&self) -> (r: usize)
        ensures
            r == self.scroll.function_hmax,
    {
        self.scroll.function_hmax()
    }

    /// The file-list geometry measured at the last render.
    pub fn list_geom(&self) -> (g: ListGeom)
        ensures
            g.cols == self.scroll.list_cols && g.rows == self.scroll.list_rows,
    {
        self.scroll.list_geom()
    }

    /// The notice still on screen at time `now`: one raised less than the
    /// time-to-live ago.
    pub fn live_notice(&self, now: u64) -> (r: Option<&Notice>)
        ensures
            match self.notice {
                Some((n, at)) => if now >= at && now - at < NOTICE_TTL_MS || now < at { r == Some(&n) } else { r is None },
                None => r is None,
            },
    {
        match &self.notice {
            Some((n, at)) => {
                if now < *at || now - *at < NOTICE_TTL_MS {
                    Some(n)
                } else {
                    None
                }
            }
            None => None,
        }
    }
}

impl ScrollMemory {
    /// The fresh memory, as a value.
    pub open spec fn new_spec() -> ScrollMemory {
        ScrollMemory { file: 0, candidates: 0, function_max: usize::MAX, function_hmax: usize::MAX, list_cols: 1, list_rows: 0 }
    }
}

} // verus!
