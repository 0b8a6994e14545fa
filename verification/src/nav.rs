//! Cursor geometry and directory navigation. The file list is laid out
//! column-major in `rows` visual rows; vertical neighbors are adjacent
//! indices and horizontal neighbors are `rows` apart.

use vstd::prelude::*;
use crate::event::Plan;
use crate::intent::Intent;
use crate::mode::SubLayout;
use crate::path::{parent, path_parent};
use crate::reducer::{Effects, fx_none, fx_plan, fx_intent};
use crate::state::{AppState, EntryList, FunctionPanelState, ListGeom, ListLayout, Ratio, SelectState};

verus! {

/// A geometric move direction over the column-major grid.
#[derive(Debug, Clone, Copy, PartialEq, Eq, Structural)]
pub enum Dir {
    Up,
    Down,
    Left,
    Right,
}

/// Visual rows per column for `n` items; unmeasured geometry (`rows == 0`)
/// falls back to a single column.
pub open spec fn grid_rows_spec(n: int, geom_rows: int) -> int {
    let r = if geom_rows == 0 { n } else if geom_rows < n { geom_rows } else { n };
    if r < 1 { 1 } else { r }
}

pub fn grid_rows(n: usize, geom: ListGeom) -> (r: usize)
    ensures
        r == grid_rows_spec(n as int, geom.rows as int),
        r >= 1,
{
    let rows = if geom.rows == 0 { n } else if geom.rows < n { geom.rows } else { n };
    if rows < 1 { 1 } else { rows }
}

/// The neighbor one step in `dir`, or `None` at the grid wall.
pub open spec fn step_spec(n: int, rows: int, cursor: int, dir: Dir) -> Option<int> {
    if n == 0 {
        None
    } else {
        let idx = if cursor < n - 1 { cursor } else { n - 1 };
        match dir {
            Dir::Down => if (idx + 1) % rows != 0 && idx + 1 < n { Some(idx + 1) } else { None },
            Dir::Up => if idx % rows != 0 { Some(idx - 1) } else { None },
            Dir::Left => if idx >= rows { Some(idx - rows) } else { None },
            Dir::Right => if idx + rows < n { Some(idx + rows) } else { None },
        }
    }
}

pub fn step_index(n: usize, rows: usize, cursor: usize, dir: Dir) -> (r: Option<usize>)
    requires
        rows >= 1,
    ensures
        match r {
            Some(i) => step_spec(n as int, rows as int, cursor as int, dir) == Some(i as int),
            None => step_spec(n as int, rows as int, cursor as int, dir) is None,
        },
{
    if n == 0 {
        return None;
    }
    let idx = if cursor < n - 1 { cursor } else { n - 1 };
    match dir {
        Dir::Down => {
            if idx + 1 < n && (idx + 1) % rows != 0 { Some(idx + 1) } else { None }
        }
        Dir::Up => {
            if idx % rows != 0 {
                assert(idx > 0) by (nonlinear_arith)
                    requires idx % rows != 0, rows >= 1;
                Some(idx - 1)
            } else {
                None
            }
        }
        Dir::Left => if idx >= rows { Some(idx - rows) } else { None },
        Dir::Right => if rows < n - idx { Some(idx + rows) } else { None },
    }
}

/// A step never leaves the list: the cursor stays in range.
pub proof fn law_step_in_range(n: int, rows: int, cursor: int, dir: Dir)
    requires
        rows >= 1,
        n >= 0,
        cursor >= 0,
    ensures
        step_spec(n, rows, cursor, dir) matches Some(i) ==> 0 <= i < n,
{
    if n > 0 {
        let idx = if cursor < n - 1 { cursor } else { n - 1 };
        if dir == Dir::Up && idx % rows != 0 {
            assert(idx > 0) by (nonlinear_arith)
                requires idx % rows != 0, rows >= 1, idx >= 0;
        }
    }
}

/// Issue a ReadDir for the current directory.
pub fn read_dir_effect(state: &AppState) -> (fx: Effects)
    ensures
        fx_plan(fx, Plan::ReadDir { path: state.cwd, show_hidden: state.show_hidden }),
{
    Effects::plan(Plan::ReadDir { path: state.cwd.clone(), show_hidden: state.show_hidden })
}

/// The state after landing in directory `path`: cursor at the top, no
/// selection.
pub open spec fn landed(old: AppState, new: AppState, path: String) -> bool {
    &&& new.selection@.len() == 0
    &&& new == (AppState { cwd: path, cursor: 0, selection: new.selection, ..old })
}

/// Move into `path`: reset the cursor and selection, then read the listing.
pub fn enter_directory(state: &mut AppState, path: String) -> (fx: Effects)
    ensures
        landed(*old(state), *final(state), path),
        fx_plan(fx, Plan::ReadDir { path, show_hidden: old(state).show_hidden }),
{
    state.cwd = path;
    state.cursor = 0;
    state.selection.clear();
    read_dir_effect(state)
}

/// Entering the cursor entry when it is a directory.
pub open spec fn enter_dir_post(old: AppState, new: AppState, fx: Effects) -> bool {
    if old.cursor < old.entries@.len() && old.entries@[old.cursor as int].is_dir {
        let p = old.entries@[old.cursor as int].path;
        landed(old, new, p) && fx_plan(fx, Plan::ReadDir { path: p, show_hidden: old.show_hidden })
    } else {
        new == old && fx_none(fx)
    }
}

pub fn enter_dir(state: &mut AppState) -> (fx: Effects)
    ensures
        enter_dir_post(*old(state), *final(state), fx),
{
    if state.cursor < state.entries.len() && state.entries[state.cursor].is_dir {
        let p = state.entries[state.cursor].path.clone();
        enter_directory(state, p)
    } else {
        Effects::none()
    }
}

/// Escaping to the parent directory, landing the cursor on the one we left.
pub open spec fn parent_dir_post(old: AppState, new: AppState, fx: Effects) -> bool {
    match path_parent(old.cwd@) {
        Some(p) => {
            &&& new.cwd@ == p
            &&& landed(AppState { pending_focus: Some(old.cwd), ..old }, new, new.cwd)
            &&& fx_plan(fx, Plan::ReadDir { path: new.cwd, show_hidden: old.show_hidden })
        },
        None => new == old && fx_none(fx),
    }
}

pub fn parent_dir(state: &mut AppState) -> (fx: Effects)
    ensures
        parent_dir_post(*old(state), *final(state), fx),
{
    match parent(state.cwd.as_str()) {
        Some(p) => {
            state.pending_focus = Some(state.cwd.clone());
            enter_directory(state, p)
        }
        None => Effects::none(),
    }
}

/// The next split ratio of the content cycle.
pub open spec fn ratio_next(r: Ratio) -> Ratio {
    match r {
        Ratio::R2_1 => Ratio::R1_1,
        Ratio::R1_1 => Ratio::R1_2,
        Ratio::R1_2 => Ratio::R2_1,
    }
}

/// Cycling the content panel: show it in the Content frame, else advance the
/// ratio. It never hides the panel.
pub open spec fn cycle_content_spec(f: FunctionPanelState) -> FunctionPanelState {
    if !f.visible {
        FunctionPanelState { visible: true, sublayout: SubLayout::Content, ..f }
    } else if f.sublayout != SubLayout::Content {
        FunctionPanelState { sublayout: SubLayout::Content, ..f }
    } else {
        FunctionPanelState { ratio: ratio_next(f.ratio), ..f }
    }
}

pub fn cycle_content(state: &mut AppState) -> (fx: Effects)
    ensures
        *final(state) == (AppState { function: cycle_content_spec(old(state).function), ..*old(state) }),
        final(state).function.visible,
        final(state).function.sublayout == SubLayout::Content,
        fx_none(fx),
{
    if !state.function.visible {
        state.function.visible = true;
        state.function.sublayout = SubLayout::Content;
    } else if state.function.sublayout != SubLayout::Content {
        state.function.sublayout = SubLayout::Content;
    } else {
        state.function.ratio = match state.function.ratio {
            Ratio::R2_1 => Ratio::R1_1,
            Ratio::R1_1 => Ratio::R1_2,
            Ratio::R1_2 => Ratio::R2_1,
        };
    }
    Effects::none()
}

/// The comma key: show at 2:1, then widen, then hide (focus back on files).
pub open spec fn cycle_function_panel_post(old: AppState, new: AppState) -> bool {
    let f = old.function;
    if !f.visible {
        new == (AppState { function: FunctionPanelState { visible: true, ratio: Ratio::R2_1, ..f }, ..old })
    } else {
        match f.ratio {
            Ratio::R2_1 => new == (AppState { function: FunctionPanelState { ratio: Ratio::R1_1, ..f }, ..old }),
            Ratio::R1_1 => new == (AppState { function: FunctionPanelState { ratio: Ratio::R1_2, ..f }, ..old }),
            Ratio::R1_2 => {
                &&& new.focused_panel@ == "file"@
                &&& new == (AppState { function: FunctionPanelState { visible: false, ..f }, focused_panel: new.focused_panel, ..old })
            },
        }
    }
}

pub fn cycle_function_panel(state: &mut AppState)
    ensures
        cycle_function_panel_post(*old(state), *final(state)),
{
    if !state.function.visible {
        state.function.visible = true;
        state.function.ratio = Ratio::R2_1;
    } else {
        match state.function.ratio {
            Ratio::R2_1 => state.function.ratio = Ratio::R1_1,
            Ratio::R1_1 => state.function.ratio = Ratio::R1_2,
            Ratio::R1_2 => {
                state.function.visible = false;
                state.focused_panel = "file".to_owned();
            }
        }
    }
}

/// Moving within a Select's results: the path grid by 2-D geometry, the token
/// list by one (left and right do nothing there).
pub open spec fn moved_select(sel: SelectState, dir: Dir, geom: ListGeom) -> SelectState {
    match sel.view {
        Some(v) => {
            let n = v.entries@.len() as int;
            match step_spec(n, grid_rows_spec(n, geom.rows as int), v.cursor as int, dir) {
                Some(i) => SelectState { view: Some(EntryList { cursor: i as usize, ..v }), ..sel },
                None => sel,
            }
        },
        None => match dir {
            Dir::Down => if sel.results@.len() > 0 {
                let up = if sel.selected + 1 < sel.results@.len() - 1 { sel.selected + 1 } else { sel.results@.len() - 1 };
                SelectState { selected: up as usize, ..sel }
            } else {
                sel
            },
            Dir::Up => SelectState { selected: if sel.selected > 0 { (sel.selected - 1) as usize } else { 0 }, ..sel },
            _ => sel,
        },
    }
}

pub fn select_move(state: &mut AppState, dir: Dir) -> (fx: Effects)
    requires
        old(state).select matches Some(sel) ==> sel.selected < usize::MAX,
    ensures
        *final(state) == (match old(state).select {
            Some(sel) => AppState { select: Some(moved_select(sel, dir, old(state).list_geom)), ..*old(state) },
            None => *old(state),
        }),
        fx_none(fx),
{
    let geom = state.list_geom;
    match &mut state.select {
        Some(sel) => {
            match &mut sel.view {
                Some(view) => {
                    let n = view.entries.len();
                    let rows = grid_rows(n, geom);
                    match step_index(n, rows, view.cursor, dir) {
                        Some(i) => view.cursor = i,
                        None => {}
                    }
                }
                None => {
                    match dir {
                        Dir::Down => {
                            if sel.results.len() > 0 {
                                let last = sel.results.len() - 1;
                                sel.selected = if sel.selected + 1 < last { sel.selected + 1 } else { last };
                            }
                        }
                        Dir::Up => {
                            sel.selected = if sel.selected > 0 { sel.selected - 1 } else { 0 };
                        }
                        _ => {}
                    }
                }
            }
        }
        None => {}
    }
    Effects::none()
}

/// A cursor step in the file panel; at a wall, left escapes to the parent
/// and right (in Rows) acts on the entry: enter a directory, cycle the
/// content panel on a file.
pub open spec fn file_move_post(old: AppState, new: AppState, fx: Effects, dir: Dir) -> bool {
    let n = old.entries@.len() as int;
    match step_spec(n, grid_rows_spec(n, old.list_geom.rows as int), old.cursor as int, dir) {
        Some(i) => new == (AppState { cursor: i as usize, ..old }) && fx_none(fx),
        None => match dir {
            Dir::Left => parent_dir_post(old, new, fx),
            Dir::Right => if old.list_layout == ListLayout::Rows && old.cursor < old.entries@.len() {
                if old.entries@[old.cursor as int].is_dir {
                    enter_dir_post(old, new, fx)
                } else {
                    new == (AppState { function: cycle_content_spec(old.function), ..old }) && fx_none(fx)
                }
            } else {
                new == old && fx_none(fx)
            },
            _ => new == old && fx_none(fx),
        },
    }
}

/// Move the focused entry cursor: a Select's results when a Select is open,
/// else the file panel.
pub open spec fn cursor_move_post(old: AppState, new: AppState, fx: Effects, dir: Dir) -> bool {
    match old.select {
        Some(sel) => new == (AppState { select: Some(moved_select(sel, dir, old.list_geom)), ..old }) && fx_none(fx),
        None => file_move_post(old, new, fx, dir),
    }
}

pub fn cursor_move(state: &mut AppState, dir: Dir) -> (fx: Effects)
    requires
        old(state).select matches Some(sel) ==> sel.selected < usize::MAX,
    ensures
        cursor_move_post(*old(state), *final(state), fx, dir),
{
    if state.select.is_some() {
        return select_move(state, dir);
    }
    let n = state.entries.len();
    let rows = grid_rows(n, state.list_geom);
    match step_index(n, rows, state.cursor, dir) {
        Some(i) => {
            state.cursor = i;
            return Effects::none();
        }
        None => {}
    }
    match dir {
        Dir::Left => parent_dir(state),
        Dir::Right => {
            if state.list_layout == ListLayout::Rows && state.cursor < state.entries.len() {
                if state.entries[state.cursor].is_dir {
                    enter_dir(state)
                } else {
                    cycle_content(state)
                }
            } else {
                Effects::none()
            }
        }
        _ => Effects::none(),
    }
}

/// `n - 1`, or 0 for an empty list.
pub open spec fn last_index(n: int) -> int {
    if n > 0 { n - 1 } else { 0 }
}

/// Jump to the top or bottom of the focused entry list.
pub open spec fn jumped(old: AppState, bottom: bool) -> AppState {
    match old.select {
        Some(sel) => match sel.view {
            Some(v) => AppState {
                select: Some(SelectState {
                    view: Some(EntryList { cursor: (if bottom { last_index(v.entries@.len() as int) } else { 0 }) as usize, ..v }),
                    ..sel
                }),
                ..old
            },
            None => AppState {
                select: Some(SelectState { selected: (if bottom { last_index(sel.results@.len() as int) } else { 0 }) as usize, ..sel }),
                ..old
            },
        },
        None => AppState { cursor: (if bottom { last_index(old.entries@.len() as int) } else { 0 }) as usize, ..old },
    }
}

pub fn cursor_jump(state: &mut AppState, bottom: bool) -> (fx: Effects)
    ensures
        *final(state) == jumped(*old(state), bottom),
        fx_none(fx),
{
    match &mut state.select {
        Some(sel) => {
            match &mut sel.view {
                Some(view) => {
                    let n = view.entries.len();
                    view.cursor = if bottom && n > 0 { n - 1 } else { 0 };
                }
                None => {
                    let n = sel.results.len();
                    sel.selected = if bottom && n > 0 { n - 1 } else { 0 };
                }
            }
        }
        None => {
            let n = state.entries.len();
            state.cursor = if bottom && n > 0 { n - 1 } else { 0 };
        }
    }
    Effects::none()
}

/// Activate the cursor entry: enter a directory, or open a file through the
/// resolver (an empty path names the cursor entry).
pub open spec fn activate_post(old: AppState, new: AppState, fx: Effects) -> bool {
    if old.cursor < old.entries@.len() {
        if old.entries@[old.cursor as int].is_dir {
            enter_dir_post(old, new, fx)
        } else {
            &&& new == old
            &&& fx.plans@.len() == 0 && fx.notices@.len() == 0 && fx.intents@.len() == 1
            &&& fx.intents@[0] matches Intent::Open { path } && path@.len() == 0
        }
    } else {
        new == old && fx_none(fx)
    }
}

pub fn activate(state: &mut AppState) -> (fx: Effects)
    ensures
        activate_post(*old(state), *final(state), fx),
{
    if state.cursor < state.entries.len() {
        if state.entries[state.cursor].is_dir {
            enter_dir(state)
        } else {
            Effects::emit_one(Intent::Open { path: String::new() })
        }
    } else {
        Effects::none()
    }
}

/// The directory that navigating to `path` lands in: the path itself when it
/// is a directory, else its parent.
pub open spec fn nav_dir(path: Seq<char>, is_dir: bool) -> Seq<char> {
    if is_dir {
        path
    } else {
        match path_parent(path) {
            Some(p) => p,
            None => path,
        }
    }
}

pub open spec fn navigate_post(old: AppState, new: AppState, fx: Effects, path: String, is_dir: bool) -> bool {
    &&& new.cwd@ == nav_dir(path@, is_dir)
    &&& landed(AppState { pending_focus: Some(path), ..old }, new, new.cwd)
    &&& fx_plan(fx, Plan::ReadDir { path: new.cwd, show_hidden: old.show_hidden })
}

/// Navigate to `path`, given whether it is a directory: enter it, or enter
/// its parent and focus the file.
pub fn navigate_with(state: &mut AppState, path: String, is_dir: bool) -> (fx: Effects)
    ensures
        navigate_post(*old(state), *final(state), fx, path, is_dir),
{
    let dir = if is_dir {
        path.clone()
    } else {
        match parent(path.as_str()) {
            Some(p) => p,
            None => path.clone(),
        }
    };
    state.pending_focus = Some(path);
    enter_directory(state, dir)
}

/// Step to the next or previous match (wrapping) and scroll to its line.
pub open spec fn search_step_post(old: AppState, new: AppState, forward: bool) -> bool {
    let n = old.function.search.matches@.len();
    if n == 0 {
        new == old
    } else {
        let cur = old.function.search.current as int;
        let c = if forward { (cur + 1) % (n as int) } else { (cur + n - 1) % (n as int) };
        new == (AppState {
            function: FunctionPanelState {
                search: crate::state::PanelSearch { current: c as usize, ..old.function.search },
                scroll: old.function.search.matches@[c].0,
                ..old.function
            },
            ..old
        })
    }
}

pub fn search_step(state: &mut AppState, forward: bool)
    requires
        old(state).function.search.current + old(state).function.search.matches@.len() <= usize::MAX,
    ensures
        search_step_post(*old(state), *final(state), forward),
{
    let n = state.function.search.matches.len();
    if n == 0 {
        return;
    }
    let cur = state.function.search.current;
    let c = if forward { (cur + 1) % n } else { (cur + n - 1) % n };
    state.function.search.current = c;
    let line = state.function.search.matches[c].0;
    state.function.scroll = line;
}

/// The two focusable panels: file and, when visible, function.
pub open spec fn focus_next(visible: bool, focused: Seq<char>) -> Seq<char> {
    if visible {
        if focused == "function"@ { "file"@ } else { "function"@ }
    } else {
        "file"@
    }
}

pub fn focus_cycle(state: &mut AppState, forward: bool)
    ensures
        final(state).focused_panel@ == focus_next(old(state).function.visible, old(state).focused_panel@),
        *final(state) == (AppState { focused_panel: final(state).focused_panel, ..*old(state) }),
{
    if state.function.visible {
        let on_function = crate::text::str_eq(state.focused_panel.as_str(), "function");
        proof {
            reveal_strlit("function");
        }
        if on_function {
            state.focused_panel = "file".to_owned();
        } else {
            state.focused_panel = "function".to_owned();
        }
    } else {
        state.focused_panel = "file".to_owned();
    }
}

/// Refresh: re-read the listing and, when the panel shows content, force a
/// reload of the cursor entry for its owner from offset 0.
pub open spec fn refresh_post(s: AppState, fx: Effects) -> bool {
    &&& fx.plans@ == seq![Plan::ReadDir { path: s.cwd, show_hidden: s.show_hidden }]
    &&& fx.notices@.len() == 0
    &&& fx.intents@ == (if s.function.visible && s.function.sublayout == SubLayout::Content
        && s.function.content_owner is Some && s.cursor < s.entries@.len() {
        seq![Intent::LoadContent {
            owner: s.function.content_owner->0,
            path: s.entries@[s.cursor as int].path,
            offset: 0,
        }]
    } else {
        Seq::empty()
    })
}

pub fn refresh(state: &AppState) -> (fx: Effects)
    ensures
        refresh_post(*state, fx),
{
    let mut fx = read_dir_effect(state);
    assert(fx.intents@ =~= Seq::<Intent>::empty());
    if state.function.visible && state.function.sublayout == SubLayout::Content {
        match &state.function.content_owner {
            Some(owner) => {
                if state.cursor < state.entries.len() {
                    fx.intents.push(Intent::LoadContent {
                        owner: owner.clone(),
                        path: state.entries[state.cursor].path.clone(),
                        offset: 0,
                    });
                    assert(fx.intents@ =~= seq![Intent::LoadContent {
                        owner: state.function.content_owner->0,
                        path: state.entries@[state.cursor as int].path,
                        offset: 0,
                    }]);
                }
            }
            None => {}
        }
    }
    fx
}

} // verus!
