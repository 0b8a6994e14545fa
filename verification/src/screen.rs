//! The screen's geometry and fixed texts: how the window splits into the top
//! panel, the main area and the help row, how panels split and inset, the
//! help row's key hints, and the confirmation prompt's summary.

use vstd::prelude::*;
use crate::intent::Intent;
use crate::mode::Mode;
use crate::state::AppState;
use crate::text::{chars_of, nat_decimal, push_char, push_decimal, push_str, owned, str_eq, string_of};
use crate::readline::{byte_len, char_index, char_index_of, is_boundary, utf8_len};
use crate::state::{SelectPhase, SelectState, contains_str, views};

verus! {

/// A rectangle of terminal cells.
#[derive(Debug, Clone, Copy, PartialEq, Eq, Structural)]
pub struct Area {
    pub x: u16,
    pub y: u16,
    pub width: u16,
    pub height: u16,
}

/// The top panel's height for a window height.
pub fn top_rows(height: u16) -> (r: u16)
    ensures
        r == (if height >= 25 { 7u16 } else { 5u16 }),
{
    if height >= 25 { 7 } else { 5 }
}

/// The rows of the screen: the top panel, the main area (sharing its first
/// row with the top panel's last, so their borders coincide) and the help row
/// on the last line; `None` on a window under four cells either way.
pub fn screen_bands(area: Area) -> (r: Option<(Area, Area, Area)>)
    requires
        area.x + area.width <= u16::MAX,
        area.y + area.height <= u16::MAX,
        area.y + 7 <= u16::MAX,
    ensures
        match r {
            None => area.width < 4 || area.height < 4,
            Some((top, main, help)) => {
                let tr: int = if area.height >= 25 { 7 } else { 5 };
                &&& area.width >= 4 && area.height >= 4
                &&& top == Area { x: area.x, y: area.y, width: area.width, height: tr as u16 }
                &&& main == Area {
                    x: area.x,
                    y: (area.y + tr - 1) as u16,
                    width: area.width,
                    height: (if area.height >= tr { area.height - tr } else { 0 }) as u16,
                }
                &&& help == Area { x: area.x, y: (area.y + area.height - 1) as u16, width: area.width, height: 1 }
            },
        },
{
    if area.width < 4 || area.height < 4 {
        return None;
    }
    let tr = top_rows(area.height);
    let help_y = area.y + area.height - 1;
    let top = Area { x: area.x, y: area.y, width: area.width, height: tr };
    let main = Area {
        x: area.x,
        y: area.y + tr - 1,
        width: area.width,
        height: area.height.saturating_sub(tr),
    };
    let help = Area { x: area.x, y: help_y, width: area.width, height: 1 };
    Some((top, main, help))
}

/// The left part of a `width` wide area that weights `lw : rw` give.
pub fn ratio_left(width: u16, lw: u32, rw: u32) -> (r: u16)
    requires
        lw + rw > 0,
        lw + rw <= u32::MAX,
        width * lw <= u32::MAX,
    ensures
        r == (width * lw) / (lw + rw),
{
    let p: u32 = (width as u32) * lw;
    let d: u32 = lw + rw;
    let q: u32 = p / d;
    assert(q <= width) by (nonlinear_arith)
        requires
            p == width * lw,
            q == p / d,
            d > 0,
            lw <= d,
    {
        assert(width * lw <= width * d);
    }
    q as u16
}

/// `v` kept within `lo..=hi`.
pub open spec fn clamp_spec(v: int, lo: int, hi: int) -> int {
    if v < lo { lo } else if v > hi { hi } else { v }
}

/// The largest left width a split allows.
pub open spec fn split_max(width: int) -> int {
    if width - 2 > 2 { width - 2 } else { 2 }
}

/// An area split into a left part `left_w` wide (kept within 2 and the width
/// less two) and the rest; the two share the dividing column.
pub fn split_h(r: Area, left_w: u16) -> (out: (Area, Area))
    requires
        r.width >= 1,
        r.x + r.width + 1 <= u16::MAX,
    ensures
        ({
            let lw = clamp_spec(left_w as int, 2, split_max(r.width as int));
            let sx = r.x + lw - 1;
            &&& out.0 == Area { x: r.x, y: r.y, width: lw as u16, height: r.height }
            &&& out.1 == Area { x: sx as u16, y: r.y, width: (r.x + r.width - sx) as u16, height: r.height }
        }),
{
    let hi: u16 = if r.width >= 4 { r.width - 2 } else { 2 };
    let lw: u16 = if left_w < 2 { 2 } else if left_w > hi { hi } else { left_w };
    let sx = r.x + lw - 1;
    let left = Area { x: r.x, y: r.y, width: sx - r.x + 1, height: r.height };
    let right = Area { x: sx, y: r.y, width: r.x + r.width - sx, height: r.height };
    (left, right)
}

/// An area split into a top part `top_h` high (kept within 2 and the height
/// less two) and the rest; the two share the dividing row.
pub fn split_v(r: Area, top_h: u16) -> (out: (Area, Area))
    requires
        r.height >= 1,
        r.y + r.height + 1 <= u16::MAX,
    ensures
        ({
            let th = clamp_spec(top_h as int, 2, split_max(r.height as int));
            let sy = r.y + th - 1;
            &&& out.0 == Area { x: r.x, y: r.y, width: r.width, height: th as u16 }
            &&& out.1 == Area { x: r.x, y: sy as u16, width: r.width, height: (r.y + r.height - sy) as u16 }
        }),
{
    let hi: u16 = if r.height >= 4 { r.height - 2 } else { 2 };
    let th: u16 = if top_h < 2 { 2 } else if top_h > hi { hi } else { top_h };
    let sy = r.y + th - 1;
    let top = Area { x: r.x, y: r.y, width: r.width, height: sy - r.y + 1 };
    let bot = Area { x: r.x, y: sy, width: r.width, height: r.y + r.height - sy };
    (top, bot)
}

/// `a - b`, or zero.
pub open spec fn sub0(a: int, b: int) -> int {
    if a >= b { a - b } else { 0 }
}

/// A panel's content area: one cell in from each side, or, for a panel open
/// at the bottom, from all but the bottom.
pub fn inner(r: Area, open_bottom: bool) -> (out: Area)
    requires
        r.x < u16::MAX,
        r.y < u16::MAX,
    ensures
        out == (Area {
            x: (r.x + 1) as u16,
            y: (r.y + 1) as u16,
            width: sub0(r.width as int, 2) as u16,
            height: sub0(r.height as int, if open_bottom { 1 } else { 2 }) as u16,
        }),
{
    Area {
        x: r.x + 1,
        y: r.y + 1,
        width: r.width.saturating_sub(2),
        height: r.height.saturating_sub(if open_bottom { 1 } else { 2 }),
    }
}

/// The help row's key hints for the current mode and focus.
pub open spec fn help_spec(s: AppState) -> Seq<char> {
    match s.modes@.last().mode {
        Mode::File => {
            if s.focused_panel@ == "function"@ {
                if s.function.search.input_active {
                    "type pattern  Enter search  Esc cancel"@
                } else if s.function.search.matches@.len() > 0 {
                    "j/k scroll  h/l \u{25C2}\u{25B8}  n/p match  g/G top/bottom  Enter open  Esc hide"@
                } else {
                    "j/k scroll  h/l \u{25C2}\u{25B8}  / search  n line#  g/G top/bottom  Enter open  Esc hide"@
                }
            } else {
                "wasd move  Space sel  f find  x palette  c/m/R/e copy/move/rename/edit  ,panel  q quit"@
            }
        },
        Mode::Select(spec) => {
            if spec.id@ == "command"@ {
                "type argument  w/s move  Space toggle option  Enter run  Esc cancel"@
            } else {
                "type to filter  Enter confirm/next  w/s move  Space mark  Esc cancel"@
            }
        },
        Mode::Policy(_) => "y/Enter confirm   n/Esc cancel"@,
        Mode::Extension { .. } => "Esc back"@,
    }
}

/// The help row's key hints: in the file layout they follow the focused panel
/// (and, in the function panel, the search state); in a Select they name its
/// keys (the command Select's input is its argument); the confirmation prompt
/// and extension modes have their own.
pub fn help_text(state: &AppState) -> (r: String)
    requires
        state.modes@.len() >= 1,
    ensures
        r@ == help_spec(*state),
{
    match state.mode() {
        Mode::File => {
            if str_eq(state.focused_panel.as_str(), "function") {
                if state.function.search.input_active {
                    owned("type pattern  Enter search  Esc cancel")
                } else if state.function.search.matches.len() > 0 {
                    owned("j/k scroll  h/l \u{25C2}\u{25B8}  n/p match  g/G top/bottom  Enter open  Esc hide")
                } else {
                    owned("j/k scroll  h/l \u{25C2}\u{25B8}  / search  n line#  g/G top/bottom  Enter open  Esc hide")
                }
            } else {
                owned("wasd move  Space sel  f find  x palette  c/m/R/e copy/move/rename/edit  ,panel  q quit")
            }
        },
        Mode::Select(spec) => {
            if str_eq(spec.id.as_str(), "command") {
                owned("type argument  w/s move  Space toggle option  Enter run  Esc cancel")
            } else {
                owned("type to filter  Enter confirm/next  w/s move  Space mark  Esc cancel")
            }
        },
        Mode::Policy(_) => owned("y/Enter confirm   n/Esc cancel"),
        Mode::Extension { .. } => owned("Esc back"),
    }
}

/// What the confirmation prompt asks about its held intent.
pub open spec fn policy_spec(i: Intent) -> Seq<char> {
    match i {
        Intent::RunResolver(r) => r.op@ + " "@ + nat_decimal(r.paths@.len()) + " item(s)?"@,
        Intent::Extension(e) => "Run "@ + e.extension@ + ":"@ + e.intent@ + "?"@,
        _ => "Confirm operation?"@,
    }
}

/// The confirmation prompt's question: the op and how many items it takes, the
/// extension intent it runs, or a plain request to confirm.
pub fn policy_summary(pending: &Intent) -> (r: String)
    ensures
        r@ == policy_spec(*pending),
{
    match pending {
        Intent::RunResolver(q) => {
            let mut s = owned(q.op.as_str());
            push_str(&mut s, " ");
            push_decimal(&mut s, q.paths.len() as u64);
            push_str(&mut s, " item(s)?");
            s
        },
        Intent::Extension(e) => {
            let mut s = owned("Run ");
            push_str(&mut s, e.extension.as_str());
            push_str(&mut s, ":");
            push_str(&mut s, e.intent.as_str());
            push_str(&mut s, "?");
            s
        },
        _ => owned("Confirm operation?"),
    }
}

// --- the connected border ------------------------------------------------------

/// A framed panel as the border sees it: its outer area, focus, and whether it
/// has no bottom edge (its sides run down through its last row) or no left
/// edge (its content runs flush to the left).
#[derive(Debug, Clone, Copy, PartialEq, Eq, Structural)]
pub struct PanelEdge {
    pub area: Area,
    pub focused: bool,
    pub open_bottom: bool,
    pub open_left: bool,
}

/// The directions (north 1, south 2, east 4, west 8) a panel's outline runs in
/// at the cell `(x, y)`: its top and bottom edges run east-west, its sides
/// north-south, and its corners turn; panels under two cells either way draw
/// nothing.
pub open spec fn edge_bits_spec(p: PanelEdge, x: int, y: int) -> u8 {
    let r = p.area;
    if r.width < 2 || r.height < 2 {
        0u8
    } else {
        let x0 = r.x as int;
        let y0 = r.y as int;
        let x1 = x0 + r.width - 1;
        let y1 = y0 + r.height - 1;
        let side_end = if p.open_bottom { y1 } else { y1 - 1 };
        let top: u8 = if x0 < x < x1 && y == y0 { 12u8 } else { 0u8 };
        let bottom: u8 = if x0 < x < x1 && y == y1 && !p.open_bottom { 12u8 } else { 0u8 };
        let left: u8 = if y0 < y <= side_end && x == x0 && !p.open_left { 3u8 } else { 0u8 };
        let right: u8 = if y0 < y <= side_end && x == x1 { 3u8 } else { 0u8 };
        let tl: u8 = if x == x0 && y == y0 { if p.open_left { 4u8 } else { 6u8 } } else { 0u8 };
        let tr: u8 = if x == x1 && y == y0 { 10u8 } else { 0u8 };
        let bl: u8 = if x == x0 && y == y1 && !p.open_bottom && !p.open_left { 5u8 } else { 0u8 };
        let br: u8 = if x == x1 && y == y1 && !p.open_bottom { 9u8 } else { 0u8 };
        top | bottom | left | right | tl | tr | bl | br
    }
}

/// The directions all of the first `n` panels run in at a cell.
pub open spec fn mask_spec(ps: Seq<PanelEdge>, n: int, x: int, y: int) -> u8
    decreases n,
{
    if n <= 0 { 0u8 } else { mask_spec(ps, n - 1, x, y) | edge_bits_spec(ps[n - 1], x, y) }
}

/// Whether a focused one of the first `n` panels runs through a cell.
pub open spec fn focus_spec(ps: Seq<PanelEdge>, n: int, x: int, y: int) -> bool
    decreases n,
{
    if n <= 0 { false } else { focus_spec(ps, n - 1, x, y) || (ps[n - 1].focused && edge_bits_spec(ps[n - 1], x, y) != 0) }
}

/// The directions one panel's outline runs in at a cell.
fn edge_bits(p: &PanelEdge, x: u32, y: u32) -> (r: u8)
    ensures
        r == edge_bits_spec(*p, x as int, y as int),
{
    let r = p.area;
    if r.width < 2 || r.height < 2 {
        return 0;
    }
    let x0: u32 = r.x as u32;
    let y0: u32 = r.y as u32;
    let x1: u32 = x0 + r.width as u32 - 1;
    let y1: u32 = y0 + r.height as u32 - 1;
    let side_end: u32 = if p.open_bottom { y1 } else { y1 - 1 };
    let top: u8 = if x0 < x && x < x1 && y == y0 { 12 } else { 0 };
    let bottom: u8 = if x0 < x && x < x1 && y == y1 && !p.open_bottom { 12 } else { 0 };
    let left: u8 = if y0 < y && y <= side_end && x == x0 && !p.open_left { 3 } else { 0 };
    let right: u8 = if y0 < y && y <= side_end && x == x1 { 3 } else { 0 };
    let tl: u8 = if x == x0 && y == y0 { if p.open_left { 4 } else { 6 } } else { 0 };
    let tr: u8 = if x == x1 && y == y0 { 10 } else { 0 };
    let bl: u8 = if x == x0 && y == y1 && !p.open_bottom && !p.open_left { 5 } else { 0 };
    let br: u8 = if x == x1 && y == y1 && !p.open_bottom { 9 } else { 0 };
    top | bottom | left | right | tl | tr | bl | br
}

/// The border over a `w` by `h` window whose top-left cell is `(ax, ay)`: for
/// each cell (row by row) the directions the panels' outlines run in there,
/// which pick its box-drawing glyph, and whether a focused panel runs through
/// it. Where panels meet their outlines join, so shared edges form junctions.
pub fn border_mask(ax: u16, ay: u16, w: u16, h: u16, panels: &Vec<PanelEdge>) -> (r: (Vec<Vec<u8>>, Vec<Vec<bool>>))
    ensures
        r.0@.len() == h,
        r.1@.len() == h,
        forall|cy: int| #![trigger r.0@[cy]] 0 <= cy < h ==> r.0@[cy]@.len() == w,
        forall|cy: int| #![trigger r.1@[cy]] 0 <= cy < h ==> r.1@[cy]@.len() == w,
        forall|cy: int, cx: int| 0 <= cy < h && 0 <= cx < w ==>
            (#[trigger] r.0@[cy]@[cx]) == mask_spec(panels@, panels@.len() as int, ax + cx, ay + cy),
        forall|cy: int, cx: int| 0 <= cy < h && 0 <= cx < w ==>
            (#[trigger] r.1@[cy]@[cx]) == focus_spec(panels@, panels@.len() as int, ax + cx, ay + cy),
{
    let mut masks: Vec<Vec<u8>> = Vec::new();
    let mut focus: Vec<Vec<bool>> = Vec::new();
    let mut cy: u16 = 0;
    while cy < h
        invariant
            cy <= h,
            masks@.len() == cy,
            focus@.len() == cy,
            forall|j: int| #![trigger masks@[j]] 0 <= j < cy ==> masks@[j]@.len() == w,
            forall|j: int| #![trigger focus@[j]] 0 <= j < cy ==> focus@[j]@.len() == w,
            forall|j: int, cx: int| 0 <= j < cy && 0 <= cx < w ==>
                (#[trigger] masks@[j]@[cx]) == mask_spec(panels@, panels@.len() as int, ax + cx, ay + j),
            forall|j: int, cx: int| 0 <= j < cy && 0 <= cx < w ==>
                (#[trigger] focus@[j]@[cx]) == focus_spec(panels@, panels@.len() as int, ax + cx, ay + j),
        decreases h - cy,
    {
        let mut mrow: Vec<u8> = Vec::new();
        let mut frow: Vec<bool> = Vec::new();
        let mut cx: u16 = 0;
        while cx < w
            invariant
                cx <= w,
                cy < h,
                mrow@.len() == cx,
                frow@.len() == cx,
                forall|i: int| 0 <= i < cx ==> (#[trigger] mrow@[i]) == mask_spec(panels@, panels@.len() as int, ax + i, ay + cy),
                forall|i: int| 0 <= i < cx ==> (#[trigger] frow@[i]) == focus_spec(panels@, panels@.len() as int, ax + i, ay + cy),
            decreases w - cx,
        {
            let x: u32 = ax as u32 + cx as u32;
            let y: u32 = ay as u32 + cy as u32;
            let mut m: u8 = 0;
            let mut f: bool = false;
            let mut k: usize = 0;
            while k < panels.len()
                invariant
                    k <= panels@.len(),
                    x == ax + cx,
                    y == ay + cy,
                    m == mask_spec(panels@, k as int, x as int, y as int),
                    f == focus_spec(panels@, k as int, x as int, y as int),
                decreases panels@.len() - k,
            {
                let b = edge_bits(&panels[k], x, y);
                m = m | b;
                f = f || (panels[k].focused && b != 0);
                k = k + 1;
            }
            mrow.push(m);
            frow.push(f);
            cx = cx + 1;
        }
        masks.push(mrow);
        focus.push(frow);
        cy = cy + 1;
    }
    (masks, focus)
}

// --- the Select panels ------------------------------------------------------------

/// A text cut at a caret (a byte offset, held to the text's end; one that is
/// not on a character boundary stands at the end): what comes before it, the
/// character under it (a space past the end), and the rest.
pub open spec fn caret_spec(t: Seq<char>, caret: int) -> (Seq<char>, Seq<char>, Seq<char>) {
    let b = if caret < utf8_len(t) { caret } else { utf8_len(t) };
    let c = if is_boundary(t, b) { char_index(t, b) } else { t.len() as int };
    if c < t.len() {
        (t.take(c), seq![t[c]], t.skip(c + 1))
    } else {
        (t, seq![' '], Seq::empty())
    }
}

/// A text cut at its caret, for drawing a block cursor on the character under it.
pub fn caret_split(text: &str, caret: usize) -> (r: (String, String, String))
    ensures
        r.0@ == caret_spec(text@, caret as int).0,
        r.1@ == caret_spec(text@, caret as int).1,
        r.2@ == caret_spec(text@, caret as int).2,
{
    let cs = chars_of(text);
    let total = byte_len(text);
    let b = if caret < total { caret } else { total };
    let c = match char_index_of(&cs, b) {
        Some(k) => k,
        None => cs.len(),
    };
    if c < cs.len() {
        let before = string_of(vstd::slice::slice_subrange(cs.as_slice(), 0, c));
        let mut under = String::new();
        push_char(&mut under, cs[c]);
        let after = string_of(vstd::slice::slice_subrange(cs.as_slice(), c + 1, cs.len()));
        proof {
            assert(under@ =~= seq![text@[c as int]]);
        }
        (before, under, after)
    } else {
        let mut under = String::new();
        push_char(&mut under, ' ');
        assert(under@ =~= seq![' ']);
        (string_of(cs.as_slice()), under, String::new())
    }
}

/// Whether the active Select is the command Select.
pub open spec fn command_select(s: AppState) -> bool {
    s.modes@.last().mode matches Mode::Select(spec) && spec.id@ == "command"@
}

/// The Select input's title: the command Select's input is its argument.
pub fn input_title(state: &AppState) -> (r: String)
    requires
        state.modes@.len() >= 1,
    ensures
        r@ == (if command_select(*state) { "Argument"@ } else { "Search"@ }),
{
    let is_command = match state.mode() {
        Mode::Select(spec) => str_eq(spec.id.as_str(), "command"),
        _ => false,
    };
    if is_command { owned("Argument") } else { owned("Search") }
}

/// The candidate list's title: how many results (and, while the list has the
/// keys, a `[nav]` mark), or, in the command Select, how many options.
pub open spec fn results_title_spec(s: AppState) -> Seq<char> {
    match s.select {
        None => Seq::empty(),
        Some(sel) => {
            let nav: Seq<char> = if sel.phase == SelectPhase::Navigate { " [nav]"@ } else { Seq::empty() };
            match sel.view {
                Some(v) => "Results ("@ + nat_decimal(v.entries@.len()) + ")"@ + nav,
                None => if command_select(s) {
                    "Options ("@ + nat_decimal(sel.results@.len()) + ")"@
                } else {
                    "Results ("@ + nat_decimal(sel.results@.len()) + ")"@ + nav
                },
            }
        },
    }
}

/// The candidate list's title.
pub fn results_title(state: &AppState) -> (r: String)
    requires
        state.modes@.len() >= 1,
    ensures
        r@ == results_title_spec(*state),
{
    let Some(sel) = &state.select else {
        return String::new();
    };
    let navigate = match sel.phase {
        SelectPhase::Navigate => true,
        SelectPhase::Input => false,
    };
    let is_command = match state.mode() {
        Mode::Select(spec) => str_eq(spec.id.as_str(), "command"),
        _ => false,
    };
    let (head, n, show_nav): (&str, usize, bool) = match &sel.view {
        Some(v) => ("Results (", v.entries.len(), navigate),
        None => if is_command { ("Options (", sel.results.len(), false) } else { ("Results (", sel.results.len(), navigate) },
    };
    let mut out = owned(head);
    push_decimal(&mut out, n as u64);
    push_str(&mut out, ")");
    if show_nav {
        push_str(&mut out, " [nav]");
    }
    proof {
        reveal_strlit("");
    }
    assert(out@ =~= results_title_spec(*state));
    out
}

/// A candidate row: `*` when its label is marked, else a space, then the label.
pub fn candidate_text(sel: &SelectState, i: usize) -> (r: String)
    requires
        i < sel.results@.len(),
    ensures
        r@ == seq![if views(sel.marks@).contains(sel.results@[i as int].label@) { '*' } else { ' ' }]
            + sel.results@[i as int].label@,
{
    let c = &sel.results[i];
    let mut out = String::new();
    push_char(&mut out, if contains_str(&sel.marks, c.label.as_str()) { '*' } else { ' ' });
    push_str(&mut out, c.label.as_str());
    out
}

} // verus!
