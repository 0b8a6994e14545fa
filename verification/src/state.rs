//! AppState: everything that affects behavior. Mutated by the reducer only.
//! Paths are strings; a path set (the selection, the marks) is a vector of
//! strings read through its views.

use vstd::prelude::*;
use crate::event::{ExecOutput, PanelContent};
use crate::mode::{Candidate, Mode, SubLayout, mode_id_spec};
use crate::text::str_eq;
use crate::value::ExtensionValue;

verus! {

/// A single directory entry. Times are seconds since the Unix epoch.
#[derive(Debug, Clone, PartialEq, Eq)]
pub struct Entry {
    pub path: String,
    pub name: String,
    pub is_dir: bool,
    pub is_symlink: bool,
    pub size: u64,
    pub mode: u32,
    pub uid: u32,
    pub gid: u32,
    pub modified: Option<i64>,
    pub created: Option<i64>,
    pub accessed: Option<i64>,
    pub symlink_target: Option<String>,
}

impl Entry {
    /// A dot file.
    pub fn is_hidden(&self) -> (r: bool)
        ensures
            r == (self.name@.len() > 0 && self.name@[0] == '.'),
    {
        let r = crate::text::starts_with(self.name.as_str(), ".");
        proof {
            reveal_strlit(".");
            assert("."@.len() == 1 && "."@[0] == '.');
            if self.name@.len() > 0 && self.name@[0] == '.' {
                assert(self.name@.take(1) =~= "."@);
            }
            if r {
                assert(self.name@.take(1)[0] == "."@[0]);
            }
        }
        r
    }
}

/// The views of a sequence of strings.
pub open spec fn views(v: Seq<String>) -> Seq<Seq<char>> {
    Seq::new(v.len(), |i: int| v[i]@)
}

/// The paths of a sequence of entries.
pub open spec fn entry_paths(es: Seq<Entry>) -> Seq<Seq<char>> {
    Seq::new(es.len(), |i: int| es[i].path@)
}

/// `vs` without any occurrence of `x`, order kept.
pub open spec fn without(vs: Seq<Seq<char>>, x: Seq<char>) -> Seq<Seq<char>>
    decreases vs.len(),
{
    if vs.len() == 0 {
        vs
    } else {
        let rest = without(vs.drop_last(), x);
        if vs.last() == x { rest } else { rest.push(vs.last()) }
    }
}

/// A sequence with an element pushed that it does not hold has no repeats
/// if it had none.
pub proof fn lemma_push_distinct(vs: Seq<Seq<char>>, x: Seq<char>)
    requires
        vs.no_duplicates(),
        !vs.contains(x),
    ensures
        vs.push(x).no_duplicates(),
{
    let w = vs.push(x);
    assert forall|i: int, j: int| 0 <= i < w.len() && 0 <= j < w.len() && i != j implies w[i] != w[j] by {
        if i == vs.len() {
            assert(vs[j] == w[j]);
        } else if j == vs.len() {
            assert(vs[i] == w[i]);
        }
    }
}

/// Removing a path keeps a selection free of repeats.
pub proof fn lemma_without_distinct(vs: Seq<Seq<char>>, x: Seq<char>)
    requires
        vs.no_duplicates(),
    ensures
        without(vs, x).no_duplicates(),
    decreases vs.len(),
{
    if vs.len() > 0 {
        let d = vs.drop_last();
        assert forall|i: int, j: int| 0 <= i < d.len() && 0 <= j < d.len() && i != j implies d[i] != d[j] by {
            assert(d[i] == vs[i] && d[j] == vs[j]);
        }
        lemma_without_distinct(d, x);
        if vs.last() != x {
            lemma_without_contains(d, x, vs.last());
            if d.contains(vs.last()) {
                let k = choose|k: int| 0 <= k < d.len() && d[k] == vs.last();
                assert(vs[k] == vs[vs.len() - 1]);
            }
            lemma_push_distinct(without(d, x), vs.last());
        }
    }
}

pub proof fn lemma_without_contains(vs: Seq<Seq<char>>, x: Seq<char>, y: Seq<char>)
    ensures
        without(vs, x).contains(y) == (vs.contains(y) && y != x),
    decreases vs.len(),
{
    if vs.len() > 0 {
        lemma_without_contains(vs.drop_last(), x, y);
        assert(vs =~= vs.drop_last().push(vs.last()));
        let rest = without(vs.drop_last(), x);
        if vs.contains(y) && y != x && !vs.drop_last().contains(y) {
            let k = choose|k: int| 0 <= k < vs.len() && vs[k] == y;
            if k < vs.len() - 1 {
                assert(vs.drop_last()[k] == y);
            }
        }
        if rest.push(vs.last()).contains(y) && !rest.contains(y) {
            let k = choose|k: int| 0 <= k < rest.len() + 1 && rest.push(vs.last())[k] == y;
            if k < rest.len() {
                assert(rest[k] == y);
            }
            assert(vs[vs.len() - 1] == y);
        }
        if vs.drop_last().contains(y) {
            let k = choose|k: int| 0 <= k < vs.len() - 1 && vs.drop_last()[k] == y;
            assert(vs[k] == y);
        }
        if vs.last() != x && y == vs.last() {
            assert(rest.push(vs.last())[rest.len() as int] == y);
        }
        if rest.contains(y) {
            let k = choose|k: int| 0 <= k < rest.len() && rest[k] == y;
            assert(rest.push(vs.last())[k] == y);
        }
    }
}

/// Removing an absent string changes nothing.
pub proof fn lemma_without_absent(vs: Seq<Seq<char>>, x: Seq<char>)
    requires
        !vs.contains(x),
    ensures
        without(vs, x) == vs,
    decreases vs.len(),
{
    if vs.len() > 0 {
        assert(!vs.drop_last().contains(x)) by {
            if vs.drop_last().contains(x) {
                let k = choose|k: int| 0 <= k < vs.len() - 1 && vs.drop_last()[k] == x;
                assert(vs[k] == x);
            }
        }
        lemma_without_absent(vs.drop_last(), x);
        assert(vs[vs.len() - 1] != x);
        assert(vs.drop_last().push(vs.last()) =~= vs);
    }
}

/// Whether `v` holds a string equal to `s`.
/// Whether no string occurs twice in `v`.
pub fn all_distinct(v: &Vec<String>) -> (r: bool)
    ensures
        r == views(v@).no_duplicates(),
{
    let ghost w = views(v@);
    let mut i: usize = 0;
    while i < v.len()
        invariant
            w == views(v@),
            i <= v@.len(),
            forall|a: int, b: int| 0 <= a < b < i ==> #[trigger] w[a] != #[trigger] w[b],
        decreases v@.len() - i,
    {
        let mut j: usize = 0;
        while j < i
            invariant
                w == views(v@),
                j <= i < v@.len(),
                forall|a: int| 0 <= a < j ==> #[trigger] w[a] != w[i as int],
            decreases i - j,
        {
            if str_eq(v[j].as_str(), v[i].as_str()) {
                assert(w[j as int] == w[i as int]);
                return false;
            }
            j = j + 1;
        }
        i = i + 1;
    }
    true
}

pub fn contains_str(v: &Vec<String>, s: &str) -> (r: bool)
    ensures
        r == views(v@).contains(s@),
{
    let mut i: usize = 0;
    while i < v.len()
        invariant
            i <= v@.len(),
            forall|j: int| 0 <= j < i ==> v@[j]@ != s@,
        decreases v@.len() - i,
    {
        if str_eq(v[i].as_str(), s) {
            assert(views(v@)[i as int] == s@);
            return true;
        }
        i = i + 1;
    }
    assert forall|j: int| 0 <= j < views(v@).len() implies views(v@)[j] != s@ by {
        assert(v@[j]@ != s@);
    }
    false
}

/// Removes every string equal to `s`; whether one was there.
pub fn remove_str(v: &mut Vec<String>, s: &str) -> (r: bool)
    ensures
        r == views(old(v)@).contains(s@),
        views(final(v)@) == without(views(old(v)@), s@),
{
    let mut old_v: Vec<String> = Vec::new();
    std::mem::swap(v, &mut old_v);
    let mut found = false;
    let mut i: usize = 0;
    assert(views(old_v@).take(0) =~= Seq::<Seq<char>>::empty());
    assert(views(v@) =~= Seq::<Seq<char>>::empty());
    while i < old_v.len()
        invariant
            i <= old_v@.len(),
            views(v@) == without(views(old_v@).take(i as int), s@),
            found == views(old_v@).take(i as int).contains(s@),
        decreases old_v@.len() - i,
    {
        let ghost vs = views(old_v@);
        assert(vs.take(i + 1).drop_last() =~= vs.take(i as int));
        assert(vs.take(i + 1).last() == old_v@[i as int]@);
        let ghost before = views(v@);
        if str_eq(old_v[i].as_str(), s) {
            found = true;
        } else {
            v.push(old_v[i].clone());
            assert(views(v@) =~= before.push(old_v@[i as int]@));
        }
        proof {
            let t = vs.take(i + 1);
            assert(t =~= vs.take(i as int).push(vs[i as int]));
            if t.contains(s@) && !vs.take(i as int).contains(s@) {
                let k = choose|k: int| 0 <= k < t.len() && t[k] == s@;
                if k < i {
                    assert(vs.take(i as int)[k] == s@);
                }
            }
            if vs.take(i as int).contains(s@) {
                let k = choose|k: int| 0 <= k < i && vs.take(i as int)[k] == s@;
                assert(t[k] == s@);
            }
            if vs[i as int] == s@ {
                assert(t[i as int] == s@);
            }
        }
        i = i + 1;
    }
    assert(views(old_v@).take(i as int) =~= views(old_v@));
    found
}

/// Adds `s` unless an equal string is already there.
pub fn insert_str(v: &mut Vec<String>, s: String)
    ensures
        views(final(v)@) == (if views(old(v)@).contains(s@) { views(old(v)@) } else { views(old(v)@).push(s@) }),
{
    if !contains_str(v, s.as_str()) {
        let ghost before = views(v@);
        v.push(s);
        assert(views(v@) =~= before.push(s@));
    }
}

/// A navigable list of entries with a cursor.
#[derive(Debug, Clone, PartialEq, Eq)]
pub struct EntryList {
    pub entries: Vec<Entry>,
    pub cursor: usize,
}

/// The cursor index brought into range of `n` entries.
pub open spec fn clamped(cursor: int, n: int) -> int {
    if n == 0 { 0 } else if cursor >= n { n - 1 } else { cursor }
}

impl Default for EntryList {
    fn default() -> (r: EntryList)
        ensures
            r.entries@.len() == 0,
            r.cursor == 0,
    {
        EntryList { entries: Vec::new(), cursor: 0 }
    }
}

impl EntryList {
    pub fn len(&self) -> (r: usize)
        ensures
            r == self.entries@.len(),
    {
        self.entries.len()
    }

    pub fn is_empty(&self) -> (r: bool)
        ensures
            r == (self.entries@.len() == 0),
    {
        self.entries.len() == 0
    }

    pub fn current(&self) -> (r: Option<&Entry>)
        ensures
            r is Some == (self.cursor < self.entries@.len()),
            r matches Some(e) ==> *e == self.entries@[self.cursor as int],
    {
        if self.cursor < self.entries.len() {
            Some(&self.entries[self.cursor])
        } else {
            None
        }
    }

    /// Clamp the cursor into range after the listing changes.
    pub fn clamp(&mut self)
        ensures
            final(self).entries == old(self).entries,
            final(self).cursor == clamped(old(self).cursor as int, old(self).entries@.len() as int),
    {
        if self.entries.len() == 0 {
            self.cursor = 0;
        } else if self.cursor >= self.entries.len() {
            self.cursor = self.entries.len() - 1;
        }
    }
}

/// How the file panel arranges entries.
#[derive(Debug, Clone, Copy, PartialEq, Eq, Structural, Default)]
pub enum ListLayout {
    /// One entry per line, full width.
    #[default]
    Rows,
    /// `ls -C` style: column-major, per-column widths.
    Columns,
    /// Uniform square-ish cells, column-major.
    Grid,
}

/// The cyclic successor: Rows, Columns, Grid, then Rows again.
pub open spec fn layout_next(l: ListLayout) -> ListLayout {
    match l {
        ListLayout::Rows => ListLayout::Columns,
        ListLayout::Columns => ListLayout::Grid,
        ListLayout::Grid => ListLayout::Rows,
    }
}

impl ListLayout {
    pub fn next(self) -> (r: ListLayout)
        ensures
            r == layout_next(self),
    {
        match self {
            ListLayout::Rows => ListLayout::Columns,
            ListLayout::Columns => ListLayout::Grid,
            ListLayout::Grid => ListLayout::Rows,
        }
    }
}

/// Cycling the layout three times comes back to where it started, and no
/// fewer steps do.
pub proof fn law_layout_cycle(l: ListLayout)
    ensures
        layout_next(layout_next(layout_next(l))) == l,
        layout_next(l) != l,
        layout_next(layout_next(l)) != l,
{
}

/// Last-rendered file-list geometry; `rows == 0` means not yet measured.
#[derive(Debug, Clone, Copy, PartialEq, Eq, Structural)]
pub struct ListGeom {
    pub cols: usize,
    pub rows: usize,
}

impl Default for ListGeom {
    fn default() -> (r: ListGeom)
        ensures
            r == (ListGeom { cols: 1, rows: 0 }),
    {
        ListGeom { cols: 1, rows: 0 }
    }
}

/// The file:function split ratio.
#[derive(Debug, Clone, Copy, PartialEq, Eq, Structural)]
pub enum Ratio {
    R2_1,
    R1_1,
    R1_2,
}

impl Ratio {
    /// (left, right) weights for the file:function split.
    pub fn weights(self) -> (r: (u32, u32))
        ensures
            r == (match self {
                Ratio::R2_1 => (2u32, 1u32),
                Ratio::R1_1 => (1u32, 1u32),
                Ratio::R1_2 => (1u32, 2u32),
            }),
    {
        match self {
            Ratio::R2_1 => (2, 1),
            Ratio::R1_1 => (1, 1),
            Ratio::R1_2 => (1, 2),
        }
    }
}

/// Less-style incremental search over the content.
#[derive(Debug, Clone, PartialEq)]
pub struct PanelSearch {
    /// True while the `/` input line is open.
    pub input_active: bool,
    pub query: String,
    /// Caret position within the query: a byte offset on a character boundary.
    pub caret: usize,
    /// Match positions as (line index, start, end), in document order.
    pub matches: Vec<(usize, usize, usize)>,
    /// Index into `matches` of the current match.
    pub current: usize,
}

pub open spec fn search_cleared(s: PanelSearch) -> bool {
    &&& !s.input_active
    &&& s.query@.len() == 0
    &&& s.caret == 0
    &&& s.matches@.len() == 0
    &&& s.current == 0
}

impl Default for PanelSearch {
    fn default() -> (r: PanelSearch)
        ensures
            search_cleared(r),
    {
        PanelSearch { input_active: false, query: String::new(), caret: 0, matches: Vec::new(), current: 0 }
    }
}

/// Function-panel view state.
#[derive(Debug, Clone, PartialEq)]
pub struct FunctionPanelState {
    pub visible: bool,
    pub sublayout: SubLayout,
    pub ratio: Ratio,
    pub scroll: usize,
    /// Horizontal scroll offset (columns).
    pub hscroll: usize,
    pub show_line_numbers: bool,
    /// Extension content shown in the Content frame, and its owner.
    pub content: Option<PanelContent>,
    pub content_owner: Option<String>,
    /// Opaque per-extension view state.
    pub ext_view: ExtensionValue,
    pub search: PanelSearch,
    /// Captured Execute output.
    pub exec_out: ExecOutput,
}

impl Default for FunctionPanelState {
    fn default() -> (r: FunctionPanelState)
        ensures
            !r.visible,
            r.sublayout == SubLayout::Content,
            r.ratio == Ratio::R2_1,
            r.scroll == 0,
            r.hscroll == 0,
            !r.show_line_numbers,
            r.content is None,
            r.content_owner is None,
            r.ext_view == ExtensionValue::Nil,
            search_cleared(r.search),
            r.exec_out.lines@.len() == 0,
            r.exec_out.finished,
            r.exec_out.exit is None,
    {
        FunctionPanelState {
            visible: false,
            sublayout: SubLayout::Content,
            ratio: Ratio::R2_1,
            scroll: 0,
            hscroll: 0,
            show_line_numbers: false,
            content: None,
            content_owner: None,
            ext_view: ExtensionValue::Nil,
            search: PanelSearch::default(),
            exec_out: ExecOutput { lines: Vec::new(), finished: true, exit: None },
        }
    }
}

#[derive(Debug, Clone, Copy, PartialEq, Eq, Structural)]
pub enum SelectPhase {
    Input,
    Navigate,
}

/// Runtime Select state.
#[derive(Debug, Clone, PartialEq)]
pub struct SelectState {
    pub query: String,
    /// Caret position within the query: a byte offset on a character boundary.
    pub caret: usize,
    pub phase: SelectPhase,
    pub results: Vec<Candidate>,
    pub selected: usize,
    /// Marks keyed by candidate label.
    pub marks: Vec<String>,
    /// Path-valued results as a navigable entry list; `None` for token results.
    pub view: Option<EntryList>,
}

impl SelectState {
    pub fn new(initial_query: String, has_input: bool) -> (s: SelectState)
        ensures
            s.query == initial_query,
            s.caret == crate::readline::utf8_len(initial_query@),
            s.phase == (if has_input { SelectPhase::Input } else { SelectPhase::Navigate }),
            s.results@.len() == 0,
            s.selected == 0,
            s.marks@.len() == 0,
            s.view is None,
    {
        let caret = crate::readline::byte_len(initial_query.as_str());
        SelectState {
            query: initial_query,
            caret,
            phase: if has_input { SelectPhase::Input } else { SelectPhase::Navigate },
            results: Vec::new(),
            selected: 0,
            marks: Vec::new(),
            view: None,
        }
    }
}

/// A single mode frame: the mode plus the generation assigned when pushed.
#[derive(Debug, Clone, PartialEq)]
pub struct ModeFrame {
    pub mode: Mode,
    pub generation: u64,
}

/// The whole behavior-affecting application state.
#[derive(Debug, Clone, PartialEq)]
pub struct AppState {
    pub cwd: String,
    pub entries: Vec<Entry>,
    pub cursor: usize,
    pub selection: Vec<String>,
    pub show_hidden: bool,
    pub list_layout: ListLayout,
    pub list_geom: ListGeom,
    pub function: FunctionPanelState,
    pub select: Option<SelectState>,
    pub focused_panel: String,
    pub modes: Vec<ModeFrame>,
    pub next_generation: u64,
    pub quit: bool,
    /// A path to place the cursor on after the next listing loads.
    pub pending_focus: Option<String>,
}

/// The mode stack's shape: never empty, File at the bottom, and every pushed
/// generation below the next one to hand out.
pub open spec fn stack_ok(s: AppState) -> bool {
    &&& s.modes@.len() >= 1
    &&& s.modes@[0].mode is File
    &&& forall|i: int| 0 <= i < s.modes@.len() ==> (#[trigger] s.modes@[i]).generation < s.next_generation
}

/// Every generation on the stack is below the next one handed out.
pub open spec fn generations_below(s: AppState) -> bool {
    forall|i: int| 0 <= i < s.modes@.len() ==> (#[trigger] s.modes@[i]).generation < s.next_generation
}

/// A push hands out a generation above every one on the stack, and keeps
/// every generation below the next one.
pub proof fn law_push_mode_fresh_generation(old: AppState, new: AppState, mode: Mode, g: u64)
    requires
        generations_below(old),
        g == old.next_generation,
        new.next_generation == old.next_generation + 1,
        new.modes@ == old.modes@.push(ModeFrame { mode, generation: g }),
    ensures
        forall|i: int| 0 <= i < old.modes@.len() ==> (#[trigger] old.modes@[i]).generation < g,
        new.modes@.last() == (ModeFrame { mode, generation: g }),
        generations_below(new),
{
    assert forall|i: int| 0 <= i < new.modes@.len() implies (#[trigger] new.modes@[i]).generation < new.next_generation by {
        if i < old.modes@.len() {
            assert(new.modes@[i] == old.modes@[i]);
        }
    }
}

/// A replace hands out a fresh generation to the new top frame, keeps the
/// frames below it (never replacing the base), and keeps every generation
/// below the next one.
pub proof fn law_replace_mode_fresh_generation(old: AppState, new: AppState, mode: Mode, g: u64)
    requires
        generations_below(old),
        old.modes@.len() >= 1,
        g == old.next_generation,
        new.next_generation == old.next_generation + 1,
        new.modes@ == (if old.modes@.len() > 1 { old.modes@.drop_last() } else { old.modes@ }).push(ModeFrame { mode, generation: g }),
    ensures
        forall|i: int| 0 <= i < old.modes@.len() ==> (#[trigger] old.modes@[i]).generation < g,
        new.modes@.last() == (ModeFrame { mode, generation: g }),
        old.modes@.len() > 1 ==> new.modes@.len() == old.modes@.len() && new.modes@.drop_last() == old.modes@.drop_last(),
        old.modes@.len() == 1 ==> new.modes@.len() == 2 && new.modes@[0] == old.modes@[0],
        generations_below(new),
{
    let base = if old.modes@.len() > 1 { old.modes@.drop_last() } else { old.modes@ };
    assert(new.modes@.drop_last() =~= base);
    assert forall|i: int| 0 <= i < new.modes@.len() implies (#[trigger] new.modes@[i]).generation < new.next_generation by {
        if i < base.len() {
            assert(new.modes@[i] == base[i]);
            assert(base[i] == old.modes@[i]);
        }
    }
}

/// The operation targets: the selected entries (in listing order) when any is
/// listed, else the selection itself, else the cursor entry.
pub open spec fn selected_paths(es: Seq<Entry>, sel: Seq<Seq<char>>) -> Seq<Seq<char>>
    decreases es.len(),
{
    if es.len() == 0 {
        Seq::empty()
    } else {
        let rest = selected_paths(es.drop_last(), sel);
        if sel.contains(es.last().path@) { rest.push(es.last().path@) } else { rest }
    }
}

pub open spec fn targets_spec(s: AppState) -> Seq<Seq<char>> {
    if s.selection@.len() > 0 {
        let listed = selected_paths(s.entries@, views(s.selection@));
        if listed.len() > 0 { listed } else { views(s.selection@) }
    } else if s.cursor < s.entries@.len() {
        seq![s.entries@[s.cursor as int].path@]
    } else {
        Seq::empty()
    }
}

impl AppState {
    pub fn new(cwd: String) -> (s: AppState)
        ensures
            s.cwd == cwd,
            s.entries@.len() == 0,
            s.cursor == 0,
            s.selection@.len() == 0,
            !s.show_hidden,
            s.list_layout == ListLayout::Rows,
            s.list_geom == (ListGeom { cols: 1, rows: 0 }),
            !s.function.visible,
            s.select is None,
            s.focused_panel@ == "file"@,
            s.modes@.len() == 1,
            s.modes@[0].mode == Mode::File,
            s.modes@[0].generation == 0,
            s.next_generation == 1,
            !s.quit,
            s.pending_focus is None,
            stack_ok(s),
            s.function.sublayout == SubLayout::Content,
            s.function.ratio == Ratio::R2_1,
            s.function.scroll == 0,
            s.function.hscroll == 0,
            !s.function.show_line_numbers,
            s.function.content is None,
            s.function.content_owner is None,
            s.function.ext_view == ExtensionValue::Nil,
            search_cleared(s.function.search),
            s.function.exec_out.lines@.len() == 0,
            s.function.exec_out.finished,
            s.function.exec_out.exit is None,
            crate::apply::ready(s),
    {
        let mut modes: Vec<ModeFrame> = Vec::new();
        modes.push(ModeFrame { mode: Mode::File, generation: 0 });
        let function = FunctionPanelState::default();
        proof {
            let q = function.search.query@;
            assert(q.take(0) =~= Seq::<char>::empty());
            assert(crate::readline::utf8_len(q.take(0)) == 0);
        }
        AppState {
            cwd,
            entries: Vec::new(),
            cursor: 0,
            selection: Vec::new(),
            show_hidden: false,
            list_layout: ListLayout::Rows,
            list_geom: ListGeom { cols: 1, rows: 0 },
            function,
            select: None,
            focused_panel: "file".to_owned(),
            modes,
            next_generation: 1,
            quit: false,
            pending_focus: None,
        }
    }

    /// The topmost mode.
    pub fn mode(&self) -> (m: &Mode)
        requires
            self.modes@.len() >= 1,
        ensures
            *m == self.modes@.last().mode,
    {
        &self.modes[self.modes.len() - 1].mode
    }

    pub fn mode_generation(&self) -> (g: u64)
        ensures
            g == (if self.modes@.len() == 0 { 0 } else { self.modes@.last().generation }),
    {
        if self.modes.len() == 0 {
            0
        } else {
            self.modes[self.modes.len() - 1].generation
        }
    }

    /// The full mode id of the topmost mode.
    pub fn mode_id(&self) -> (r: String)
        requires
            self.modes@.len() >= 1,
        ensures
            r@ == mode_id_spec(self.modes@.last().mode),
    {
        self.mode().id()
    }

    pub fn current_entry(&self) -> (r: Option<&Entry>)
        ensures
            r is Some == (self.cursor < self.entries@.len()),
            r matches Some(e) ==> *e == self.entries@[self.cursor as int],
    {
        if self.cursor < self.entries.len() {
            Some(&self.entries[self.cursor])
        } else {
            None
        }
    }

    /// The operation target list: the selection if non-empty, else the cursor entry.
    pub fn targets(&self) -> (r: Vec<String>)
        ensures
            views(r@) == targets_spec(*self),
    {
        if self.selection.len() > 0 {
            let ghost sel = views(self.selection@);
            let mut v: Vec<String> = Vec::new();
            let mut i: usize = 0;
            assert(self.entries@.take(0) =~= Seq::<Entry>::empty());
            assert(views(v@) =~= Seq::<Seq<char>>::empty());
            while i < self.entries.len()
                invariant
                    i <= self.entries@.len(),
                    sel == views(self.selection@),
                    views(v@) == selected_paths(self.entries@.take(i as int), sel),
                decreases self.entries@.len() - i,
            {
                assert(self.entries@.take(i + 1).drop_last() =~= self.entries@.take(i as int));
                assert(self.entries@.take(i + 1).last() == self.entries@[i as int]);
                if contains_str(&self.selection, self.entries[i].path.as_str()) {
                    let ghost before = views(v@);
                    v.push(self.entries[i].path.clone());
                    assert(views(v@) =~= before.push(self.entries@[i as int].path@));
                }
                i = i + 1;
            }
            assert(self.entries@.take(i as int) =~= self.entries@);
            if v.len() == 0 {
                let mut w: Vec<String> = Vec::new();
                let mut j: usize = 0;
                while j < self.selection.len()
                    invariant
                        j <= self.selection@.len(),
                        views(w@) =~= views(self.selection@).take(j as int),
                    decreases self.selection@.len() - j,
                {
                    let ghost before = views(w@);
                    w.push(self.selection[j].clone());
                    assert(views(w@) =~= before.push(self.selection@[j as int]@));
                    j = j + 1;
                }
                assert(views(self.selection@).take(j as int) =~= views(self.selection@));
                w
            } else {
                v
            }
        } else if self.cursor < self.entries.len() {
            let mut v: Vec<String> = Vec::new();
            v.push(self.entries[self.cursor].path.clone());
            assert(views(v@) =~= seq![self.entries@[self.cursor as int].path@]);
            v
        } else {
            let v: Vec<String> = Vec::new();
            assert(views(v@) =~= Seq::<Seq<char>>::empty());
            v
        }
    }

    /// Push a mode, assigning it a fresh generation.
    pub fn push_mode(&mut self, mode: Mode) -> (g: u64)
        requires
            old(self).next_generation < u64::MAX,
        ensures
            g == old(self).next_generation,
            final(self).next_generation == old(self).next_generation + 1,
            final(self).modes@ == old(self).modes@.push(ModeFrame { mode, generation: g }),
            *final(self) == (AppState { modes: final(self).modes, next_generation: final(self).next_generation, ..*old(self) }),
    {
        let generation = self.next_generation;
        self.next_generation = self.next_generation + 1;
        self.modes.push(ModeFrame { mode, generation });
        generation
    }

    /// Pop the topmost mode, never the base one.
    pub fn pop_mode(&mut self)
        ensures
            final(self).modes@ == (if old(self).modes@.len() > 1 { old(self).modes@.drop_last() } else { old(self).modes@ }),
            *final(self) == (AppState { modes: final(self).modes, ..*old(self) }),
    {
        if self.modes.len() > 1 {
            let _top = self.modes.pop();
        }
    }

    /// Replace the topmost mode (the base one is kept and the new one pushed).
    pub fn replace_mode(&mut self, mode: Mode) -> (g: u64)
        requires
            old(self).next_generation < u64::MAX,
        ensures
            g == old(self).next_generation,
            final(self).next_generation == old(self).next_generation + 1,
            final(self).modes@ == (if old(self).modes@.len() > 1 { old(self).modes@.drop_last() } else { old(self).modes@ })
                .push(ModeFrame { mode, generation: g }),
            *final(self) == (AppState { modes: final(self).modes, next_generation: final(self).next_generation, ..*old(self) }),
    {
        let generation = self.next_generation;
        self.next_generation = self.next_generation + 1;
        if self.modes.len() > 1 {
            let _top = self.modes.pop();
        }
        self.modes.push(ModeFrame { mode, generation });
        generation
    }

    /// Collapse the mode stack to the base mode and drop any Select state.
    pub fn reset_to_file(&mut self)
        ensures
            final(self).modes@ == old(self).modes@.take(if old(self).modes@.len() >= 1 { 1int } else { 0int }),
            final(self).select is None,
            final(self).focused_panel@ == "file"@,
            *final(self) == (AppState {
                modes: final(self).modes,
                select: None,
                focused_panel: final(self).focused_panel,
                ..*old(self)
            }),
    {
        self.modes.truncate(1);
        self.select = None;
        self.focused_panel = "file".to_owned();
    }

    /// Clamp the cursor into range after a listing change.
    pub fn clamp_cursor(&mut self)
        ensures
            final(self).cursor == clamped(old(self).cursor as int, old(self).entries@.len() as int),
            *final(self) == (AppState { cursor: final(self).cursor, ..*old(self) }),
    {
        if self.entries.len() == 0 {
            self.cursor = 0;
        } else if self.cursor >= self.entries.len() {
            self.cursor = self.entries.len() - 1;
        }
    }
}

/// Every mode-stack operation keeps the stack's shape: the base File mode is
/// never popped, and a pushed mode gets a generation above every earlier one.
pub proof fn law_stack_preserved_by_push(s: AppState, t: AppState, mode: Mode)
    requires
        stack_ok(s),
        s.next_generation < u64::MAX,
        t.next_generation == s.next_generation + 1,
        t.modes@ == s.modes@.push(ModeFrame { mode, generation: s.next_generation }),
    ensures
        stack_ok(t),
        forall|i: int| 0 <= i < s.modes@.len() ==> (#[trigger] s.modes@[i]).generation < t.modes@.last().generation,
{
    assert(t.modes@[0] == s.modes@[0]);
    assert forall|i: int| 0 <= i < t.modes@.len() implies (#[trigger] t.modes@[i]).generation < t.next_generation by {
        if i < s.modes@.len() {
            assert(t.modes@[i] == s.modes@[i]);
        }
    }
}

/// Popping keeps the stack's shape and the base mode.
pub proof fn law_stack_preserved_by_pop(s: AppState, t: AppState)
    requires
        stack_ok(s),
        t.next_generation == s.next_generation,
        t.modes@ == (if s.modes@.len() > 1 { s.modes@.drop_last() } else { s.modes@ }),
    ensures
        stack_ok(t),
        t.modes@[0] == s.modes@[0],
{
    assert forall|i: int| 0 <= i < t.modes@.len() implies (#[trigger] t.modes@[i]).generation < t.next_generation by {
        assert(t.modes@[i] == s.modes@[i]);
    }
}

} // verus!
