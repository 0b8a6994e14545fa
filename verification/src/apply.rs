//! `apply_intent`: one transition of the reducer for each intent of the
//! closed set, and the laws the transitions keep.

use vstd::prelude::*;
use crate::event::{PanelContent, Plan, ResolverRequest};
use crate::intent::{ExtensionIntent, Intent};
use crate::mode::{Mode, SubLayout};
use crate::nav::{Dir, activate, activate_post, cursor_jump, cursor_move, cursor_move_post, cycle_function_panel, cycle_function_panel_post, focus_cycle, focus_next, jumped, navigate_post, navigate_with, refresh, refresh_post, search_step, search_step_post};
use crate::reducer::{CommandLookup, Effects, Notice, fx_none, fx_plan, fx_notice, fx_intent};
use crate::select::{pushed_listed, run_command_ok, typed_listed, carets_ok, command_select, edited, op_request, push_mode, push_mode_post, pushed_fresh, raw_key, raw_key_post, refilter_post, results_applied, completions_spec, cand_models, query_of, select_confirm, select_confirm_post, start_rename, start_rename_post, start_transfer, start_transfer_post};
use crate::mode::{Candidate, SelectInput, SelectSource};
use crate::rank::fuzzy_rank_spec;
use crate::intent::printable_of;
use crate::path::path_file_name;
use crate::state::{SelectPhase, stack_ok, law_stack_preserved_by_pop};
use crate::state::{AppState, FunctionPanelState, ModeFrame, PanelSearch, SelectState, entry_paths, insert_str, layout_next, remove_str, search_cleared, targets_spec, views, without};
use crate::text::owned;
use crate::value::{ExtensionValue, Ev, ev};

verus! {

/// Columns the content scrolls horizontally per FuncLeft/FuncRight.
pub const HSCROLL_STEP: usize = 8;

/// What a transition may assume: a mode stack with File at the bottom and
/// room in the counters it advances, carets within their queries, no path
/// selected twice.
pub open spec fn ready(s: AppState) -> bool {
    &&& s.modes@.len() >= 1
    &&& s.modes@[0].mode is File
    &&& s.next_generation < u64::MAX
    &&& carets_ok(s)
    &&& s.select matches Some(sel) ==> sel.selected < usize::MAX
    &&& s.function.scroll <= usize::MAX - 10
    &&& s.function.hscroll <= usize::MAX - HSCROLL_STEP
    &&& s.function.search.current + s.function.search.matches@.len() <= usize::MAX
    &&& views(s.selection@).no_duplicates()
}

/// Whether a state is one a transition may start from (see `ready`).
pub fn is_ready(s: &AppState) -> (r: bool)
    ensures
        r == ready(*s),
{
    if s.modes.len() == 0 {
        return false;
    }
    let base_file = match &s.modes[0].mode {
        Mode::File => true,
        _ => false,
    };
    let search_caret = crate::readline::on_boundary(s.function.search.query.as_str(), s.function.search.caret);
    let select_ok = match &s.select {
        Some(sel) => crate::readline::on_boundary(sel.query.as_str(), sel.caret) && sel.selected < usize::MAX,
        None => true,
    };
    base_file
        && s.next_generation < u64::MAX
        && search_caret
        && select_ok
        && s.function.scroll <= usize::MAX - 10
        && s.function.hscroll <= usize::MAX - HSCROLL_STEP
        && s.function.search.current <= usize::MAX - s.function.search.matches.len()
        && crate::state::all_distinct(&s.selection)
}

/// `p` toggled in the path set `sel`.
pub open spec fn toggled(sel: Seq<Seq<char>>, p: Seq<char>) -> Seq<Seq<char>> {
    if sel.contains(p) { without(sel, p) } else { sel.push(p) }
}

/// `sel` with every path of `ps` added (in order) unless already there.
pub open spec fn add_all(sel: Seq<Seq<char>>, ps: Seq<Seq<char>>) -> Seq<Seq<char>>
    decreases ps.len(),
{
    if ps.len() == 0 {
        sel
    } else {
        let r = add_all(sel, ps.drop_last());
        if r.contains(ps.last()) { r } else { r.push(ps.last()) }
    }
}

/// Toggling a path keeps the selection a set (no path twice) and flips
/// whether the path is selected.
pub proof fn law_toggle_keeps_a_set(sel: Seq<Seq<char>>, p: Seq<char>)
    requires
        sel.no_duplicates(),
    ensures
        toggled(sel, p).no_duplicates(),
        toggled(sel, p).contains(p) == !sel.contains(p),
{
    if sel.contains(p) {
        crate::state::lemma_without_distinct(sel, p);
        crate::state::lemma_without_contains(sel, p, p);
    } else {
        crate::state::lemma_push_distinct(sel, p);
        assert(sel.push(p)[sel.len() as int] == p);
    }
}

/// Selecting all keeps the selection a set, and every listed path is then
/// selected.
pub proof fn law_select_all_keeps_a_set(sel: Seq<Seq<char>>, ps: Seq<Seq<char>>)
    requires
        sel.no_duplicates(),
    ensures
        add_all(sel, ps).no_duplicates(),
        forall|i: int| 0 <= i < ps.len() ==> add_all(sel, ps).contains(#[trigger] ps[i]),
    decreases ps.len(),
{
    if ps.len() > 0 {
        let d = ps.drop_last();
        law_select_all_keeps_a_set(sel, d);
        let r = add_all(sel, d);
        if !r.contains(ps.last()) {
            crate::state::lemma_push_distinct(r, ps.last());
            assert(r.push(ps.last())[r.len() as int] == ps.last());
        }
        assert forall|i: int| 0 <= i < ps.len() implies add_all(sel, ps).contains(#[trigger] ps[i]) by {
            if i < ps.len() - 1 {
                assert(d[i] == ps[i]);
                assert(r.contains(d[i]));
                if !r.contains(ps.last()) {
                    let k = choose|k: int| 0 <= k < r.len() && r[k] == d[i];
                    assert(r.push(ps.last())[k] == d[i]);
                }
            }
        }
    }
}

fn toggle_str(v: &mut Vec<String>, p: String)
    ensures
        views(final(v)@) == toggled(views(old(v)@), p@),
{
    let ghost v0 = views(v@);
    if !remove_str(v, p.as_str()) {
        proof {
            crate::state::lemma_without_absent(v0, p@);
        }
        let ghost before = views(v@);
        v.push(p);
        assert(views(v@) =~= before.push(p@));
    }
}

/// Marking in a Select: a path result toggles in the file selection, a
/// token result toggles its label among the marks; outside a Select the
/// cursor entry toggles.
pub open spec fn toggle_select_post(old: AppState, new: AppState) -> bool {
    if old.modes@.last().mode is Select {
        match old.select {
            Some(sel) => match sel.view {
                Some(v) => if v.cursor < v.entries@.len() {
                    &&& views(new.selection@) == toggled(views(old.selection@), v.entries@[v.cursor as int].path@)
                    &&& new == (AppState { selection: new.selection, ..old })
                } else if sel.selected < sel.results@.len() {
                    new.select is Some
                    && views(new.select->0.marks@) == toggled(views(sel.marks@), sel.results@[sel.selected as int].label@)
                    && new == (AppState { select: Some(SelectState { marks: new.select->0.marks, ..sel }), ..old })
                } else {
                    new == old
                },
                None => if sel.selected < sel.results@.len() {
                    new.select is Some
                    && views(new.select->0.marks@) == toggled(views(sel.marks@), sel.results@[sel.selected as int].label@)
                    && new == (AppState { select: Some(SelectState { marks: new.select->0.marks, ..sel }), ..old })
                } else {
                    new == old
                },
            },
            None => new == old,
        }
    } else if old.cursor < old.entries@.len() {
        &&& views(new.selection@) == toggled(views(old.selection@), old.entries@[old.cursor as int].path@)
        &&& new == (AppState { selection: new.selection, ..old })
    } else {
        new == old
    }
}

fn toggle_select(state: &mut AppState)
    requires
        old(state).modes@.len() >= 1,
    ensures
        toggle_select_post(*old(state), *final(state)),
{
    let n = state.modes.len();
    let in_select = match &state.modes[n - 1].mode {
        Mode::Select(_) => true,
        _ => false,
    };
    if in_select {
        let view_path: Option<String> = match &state.select {
            Some(sel) => match &sel.view {
                Some(v) => if v.cursor < v.entries.len() { Some(v.entries[v.cursor].path.clone()) } else { None },
                None => None,
            },
            None => None,
        };
        match view_path {
            Some(p) => toggle_str(&mut state.selection, p),
            None => {
                match &mut state.select {
                    Some(sel) => {
                        if sel.selected < sel.results.len() {
                            let label = sel.results[sel.selected].label.clone();
                            toggle_str(&mut sel.marks, label);
                        }
                    }
                    None => {}
                }
            }
        }
    } else if state.cursor < state.entries.len() {
        let p = state.entries[state.cursor].path.clone();
        toggle_str(&mut state.selection, p);
    }
}

fn select_all(state: &mut AppState)
    ensures
        views(final(state).selection@) == add_all(views(old(state).selection@), entry_paths(old(state).entries@)),
        *final(state) == (AppState { selection: final(state).selection, ..*old(state) }),
{
    let ghost ps = entry_paths(state.entries@);
    let ghost s0 = views(state.selection@);
    let ghost mid = *state;
    let mut i: usize = 0;
    assert(ps.take(0) =~= Seq::<Seq<char>>::empty());
    while i < state.entries.len()
        invariant
            i <= state.entries@.len(),
            ps == entry_paths(state.entries@),
            *state == (AppState { selection: state.selection, ..mid }),
            views(state.selection@) == add_all(s0, ps.take(i as int)),
        decreases state.entries@.len() - i,
    {
        assert(ps.take(i + 1).drop_last() =~= ps.take(i as int));
        assert(ps.take(i + 1).last() == state.entries@[i as int].path@);
        let p = state.entries[i].path.clone();
        insert_str(&mut state.selection, p);
        i = i + 1;
    }
    assert(ps.take(i as int) =~= ps);
}

/// The open request for a path.
pub open spec fn open_request(r: ResolverRequest, p: Seq<char>) -> bool {
    &&& r.op@ == "open"@
    &&& r.label@ == "open"@
    &&& r.src is None
    &&& r.dst is None
    &&& r.path matches Some(x) && x@ == p
    &&& views(r.paths@) == seq![p]
    &&& r.opts@.len() == 0
}

/// The panel state after showing content.
pub open spec fn shown(old: AppState, new: AppState, owner: String, content: PanelContent) -> bool {
    &&& search_cleared(new.function.search)
    &&& new.focused_panel@ == "function"@
    &&& new == (AppState {
        function: FunctionPanelState {
            visible: true,
            sublayout: SubLayout::Content,
            scroll: 0,
            hscroll: 0,
            search: new.function.search,
            content: Some(content),
            content_owner: Some(owner),
            ..old.function
        },
        focused_panel: new.focused_panel,
        ..old
    })
}

/// The function panel with its scroll set.
pub open spec fn with_scroll(s: AppState, v: int) -> AppState {
    AppState { function: FunctionPanelState { scroll: v as usize, ..s.function }, ..s }
}

pub open spec fn with_search(s: AppState, search: PanelSearch) -> AppState {
    AppState { function: FunctionPanelState { search, ..s.function }, ..s }
}

pub open spec fn sat_sub(a: int, b: int) -> int {
    if a >= b { a - b } else { 0 }
}

/// What a step does with the command registry, for a lookup that follows
/// its command models: confirming the command palette runs the intent
/// registered for the chosen name, and opening or typing into a Select that
/// draws on the registry lists the registry's commands.
pub open spec fn commands_post<C: CommandLookup>(ctx: &C, old: AppState, new: AppState, fx: Effects, intent: Intent) -> bool {
    ctx.obeys_commands() ==> match intent {
        Intent::Confirm => old.modes@.last().mode matches Mode::Select(spec) ==> (spec.on_confirm is RunCommand && old.select is Some
            && new.modes@.len() < old.modes@.len() ==> run_command_ok(ctx, spec, old.select->0, fx.intents@)),
        Intent::PushMode(m) => pushed_listed(ctx, old, new, *m),
        Intent::RawKeyEvent(key) => typed_listed(ctx, old, new, key),
        _ => true,
    }
}

/// What one intent does to the state and which effects it asks for.
pub open spec fn apply_intent_post(old: AppState, new: AppState, fx: Effects, intent: Intent) -> bool {
    match intent {
        Intent::CursorUp => cursor_move_post(old, new, fx, Dir::Up),
        Intent::CursorDown => cursor_move_post(old, new, fx, Dir::Down),
        Intent::CursorLeft => cursor_move_post(old, new, fx, Dir::Left),
        Intent::CursorRight => cursor_move_post(old, new, fx, Dir::Right),
        Intent::CursorTop => new == jumped(old, false) && fx_none(fx),
        Intent::CursorBottom => new == jumped(old, true) && fx_none(fx),
        Intent::Activate => activate_post(old, new, fx),
        Intent::NavigateTo(path) => exists|is_dir: bool| #[trigger] navigate_post(old, new, fx, path, is_dir),
        Intent::FuncUp => new == (AppState { function: FunctionPanelState { scroll: sat_sub(old.function.scroll as int, 1) as usize, ..old.function }, ..old }) && fx_none(fx),
        Intent::FuncDown => new == with_scroll(old, old.function.scroll + 1) && fx_none(fx),
        Intent::FuncLeft => new == (AppState { function: FunctionPanelState { hscroll: sat_sub(old.function.hscroll as int, HSCROLL_STEP as int) as usize, ..old.function }, ..old }) && fx_none(fx),
        Intent::FuncRight => new == (AppState { function: FunctionPanelState { hscroll: (old.function.hscroll + HSCROLL_STEP) as usize, ..old.function }, ..old }) && fx_none(fx),
        Intent::ToggleSelect => toggle_select_post(old, new) && fx_none(fx),
        Intent::SelectAll => {
            &&& views(new.selection@) == add_all(views(old.selection@), entry_paths(old.entries@))
            &&& new == (AppState { selection: new.selection, ..old })
            &&& fx_none(fx)
        },
        Intent::ClearSelection => new.selection@.len() == 0 && new == (AppState { selection: new.selection, ..old }) && fx_none(fx),
        Intent::RunResolver(req) => new == old && fx_plan(fx, Plan::ResolveAndRun { request: req }),
        Intent::Open { path } => {
            let p = if path@.len() == 0 {
                if old.cursor < old.entries@.len() { Some(old.entries@[old.cursor as int].path@) } else { None }
            } else {
                Some(path@)
            };
            &&& new == old
            &&& match p {
                Some(q) => fx.notices@.len() == 0 && fx.intents@.len() == 0 && fx.plans@.len() == 1
                    && (fx.plans@[0] matches Plan::ResolveAndRun { request } && open_request(request, q)),
                None => fx_none(fx),
            }
        },
        Intent::Edit { path } => {
            &&& new == old
            &&& fx.notices@.len() == 0 && fx.intents@.len() == 0 && fx.plans@.len() == 1
            &&& fx.plans@[0] matches Plan::Suspend { argv } && argv@.len() == 2 && argv@[1]@ == path@
        },
        Intent::Execute { argv } => {
            &&& new.function.exec_out.lines@.len() == 0
            &&& new == (AppState {
                function: FunctionPanelState {
                    visible: true,
                    sublayout: SubLayout::Exec,
                    exec_out: crate::event::ExecOutput { lines: new.function.exec_out.lines, finished: false, exit: None },
                    ..old.function
                },
                ..old
            })
            &&& fx_plan(fx, Plan::Execute { argv })
        },
        Intent::StartCopy => start_transfer_post(old, new, fx, false),
        Intent::StartMove => start_transfer_post(old, new, fx, true),
        Intent::StartRename => start_rename_post(old, new, fx),
        Intent::DeleteSelected => {
            let t = targets_spec(old);
            &&& new == old
            &&& if t.len() == 0 {
                fx_notice(fx, "nothing to delete"@, true)
            } else {
                fx.plans@.len() == 0 && fx.notices@.len() == 0 && fx.intents@.len() == 1
                    && (fx.intents@[0] matches Intent::RunResolver(r)
                        && r.op@ == "delete"@ && r.label@ == "delete"@ && views(r.paths@) == t
                        && r.src is None && r.dst is None && r.path is None && r.opts@.len() == 0)
            }
        },
        Intent::StartEdit => {
            let t = targets_spec(old);
            &&& new == old
            &&& if t.len() != 1 {
                fx_notice(fx, "edit needs exactly one target"@, true)
            } else {
                fx.plans@.len() == 0 && fx.notices@.len() == 0 && fx.intents@.len() == 1
                    && (fx.intents@[0] matches Intent::Edit { path } && path@ == t[0])
            }
        },
        Intent::PushMode(m) => push_mode_post(old, new, fx, *m),
        Intent::PopMode => {
            let popped = if old.modes@.len() > 1 { old.modes@.drop_last() } else { old.modes@ };
            &&& new.modes@ == popped
            &&& new == (AppState {
                modes: new.modes,
                select: if old.modes@.last().mode is Select && !(popped.last().mode is Select) { None } else { old.select },
                ..old
            })
            &&& fx_none(fx)
        },
        Intent::SetSubLayout(sl) => new == (AppState { function: FunctionPanelState { visible: true, sublayout: sl, ..old.function }, ..old }) && fx_none(fx),
        Intent::CycleFunctionPanel => cycle_function_panel_post(old, new) && fx_none(fx),
        Intent::HideFunctionPanel => {
            &&& new.focused_panel@ == "file"@
            &&& new == (AppState { function: FunctionPanelState { visible: false, ..old.function }, focused_panel: new.focused_panel, ..old })
            &&& fx_none(fx)
        },
        Intent::ShowFunctionContent { owner, content } => shown(old, new, owner, content) && fx_none(fx),
        Intent::UpdateFunctionView(v) => new == (AppState { function: FunctionPanelState { ext_view: v, ..old.function }, ..old }) && fx_none(fx),
        Intent::LoadContent { owner, path, offset } => {
            &&& new == (AppState { function: FunctionPanelState { content_owner: Some(owner), ..old.function }, ..old })
            &&& fx_plan(fx, Plan::Read { owner, path, offset })
        },
        Intent::ScrollUp => new == with_scroll(old, sat_sub(old.function.scroll as int, 1)) && fx_none(fx),
        Intent::ScrollDown => new == with_scroll(old, old.function.scroll + 1) && fx_none(fx),
        Intent::ScrollTop => new == with_scroll(old, 0) && fx_none(fx),
        Intent::ScrollBottom => new == with_scroll(old, (usize::MAX / 2) as int) && fx_none(fx),
        Intent::PageUp => new == with_scroll(old, sat_sub(old.function.scroll as int, 10)) && fx_none(fx),
        Intent::PageDown => new == with_scroll(old, old.function.scroll + 10) && fx_none(fx),
        Intent::SetScroll(n) => new == with_scroll(old, n as int) && fx_none(fx),
        Intent::FunctionSearchStart => {
            let s = new.function.search;
            &&& s.input_active && s.query@.len() == 0 && s.caret == 0 && s.matches@.len() == 0 && s.current == 0
            &&& new.focused_panel@ == "function"@
            &&& new == (AppState { focused_panel: new.focused_panel, ..with_search(old, s) })
            &&& fx_none(fx)
        },
        Intent::FunctionSearchSubmit => {
            &&& new.focused_panel@ == "file"@
            &&& new == (AppState {
                focused_panel: new.focused_panel,
                ..with_search(old, PanelSearch { input_active: false, ..old.function.search })
            })
            &&& fx.plans@.len() == 0 && fx.notices@.len() == 0
            &&& match old.function.content_owner {
                Some(owner) => fx.intents@.len() == 1 && (fx.intents@[0] matches Intent::Extension(e)
                    && e.extension == owner && e.intent@ == "search"@ && ev(e.data) == Ev::Str(old.function.search.query@)),
                None => fx.intents@.len() == 0,
            }
        },
        Intent::SetSearchMatches(m) => new == with_search(old, PanelSearch { current: 0, matches: m, ..old.function.search }) && fx_none(fx),
        Intent::FunctionSearchNext => search_step_post(old, new, true) && fx_none(fx),
        Intent::FunctionSearchPrev => search_step_post(old, new, false) && fx_none(fx),
        Intent::FunctionSearchCancel => {
            &&& new.focused_panel@ == "file"@
            &&& new == (AppState {
                focused_panel: new.focused_panel,
                ..with_search(old, PanelSearch { input_active: false, ..old.function.search })
            })
            &&& fx_none(fx)
        },
        Intent::ResetContentView => {
            &&& search_cleared(new.function.search)
            &&& new == (AppState { function: FunctionPanelState { scroll: 0, hscroll: 0, search: new.function.search, ..old.function }, ..old })
            &&& fx_none(fx)
        },
        Intent::Confirm => select_confirm_post(old, new, fx),
        Intent::Cancel => if old.modes@.last().mode is Select {
            &&& new.modes@ == (if old.modes@.len() > 1 { old.modes@.drop_last() } else { old.modes@ })
            &&& new == (AppState { modes: new.modes, select: None, ..old })
            &&& fx_none(fx)
        } else {
            new == old && fx_none(fx)
        },
        Intent::RawKeyEvent(key) => raw_key_post(old, new, fx, key),
        Intent::FocusNextPanel => {
            &&& new.focused_panel@ == focus_next(old.function.visible, old.focused_panel@)
            &&& new == (AppState { focused_panel: new.focused_panel, ..old })
            &&& fx_none(fx)
        },
        Intent::FocusPrevPanel => {
            &&& new.focused_panel@ == focus_next(old.function.visible, old.focused_panel@)
            &&& new == (AppState { focused_panel: new.focused_panel, ..old })
            &&& fx_none(fx)
        },
        Intent::FocusPanel(id) => new == (AppState { focused_panel: id, ..old }) && fx_none(fx),
        Intent::ToggleDotFiles => {
            &&& new == (AppState { show_hidden: !old.show_hidden, ..old })
            &&& fx_plan(fx, Plan::ReadDir { path: old.cwd, show_hidden: !old.show_hidden })
        },
        Intent::ToggleLineNumbers => new == (AppState { function: FunctionPanelState { show_line_numbers: !old.function.show_line_numbers, ..old.function }, ..old }) && fx_none(fx),
        Intent::CycleListLayout => new == (AppState { list_layout: layout_next(old.list_layout), ..old }) && fx_none(fx),
        Intent::KillProcess => new == (AppState {
            function: FunctionPanelState { exec_out: crate::event::ExecOutput { finished: true, ..old.function.exec_out }, ..old.function },
            ..old
        }) && fx_none(fx),
        Intent::Refresh => new == old && refresh_post(old, fx),
        Intent::Quit => new == (AppState { quit: true, ..old }) && fx_none(fx),
        Intent::Noop => new == old && fx_none(fx),
        Intent::UpdateExtensionState(v) => {
            &&& fx_none(fx)
            &&& match old.modes@.last().mode {
                Mode::Extension { extension, mode, .. } => {
                    &&& new.modes@ == old.modes@.update(old.modes@.len() - 1, ModeFrame {
                        mode: Mode::Extension { extension, mode, state: v },
                        generation: old.modes@.last().generation,
                    })
                    &&& new == (AppState { modes: new.modes, ..old })
                },
                _ => new == old,
            }
        },
        Intent::Extension(_) => new == old && fx_none(fx),
    }
}

/// Which part of the reducer handles an intent.
pub open spec fn group(i: Intent) -> int {
    match i {
        Intent::CursorUp | Intent::CursorDown | Intent::CursorLeft | Intent::CursorRight | Intent::CursorTop | Intent::CursorBottom | Intent::Activate | Intent::NavigateTo(..) | Intent::ToggleSelect | Intent::SelectAll | Intent::ClearSelection | Intent::ToggleDotFiles | Intent::CycleListLayout | Intent::Refresh | Intent::Quit | Intent::Noop | Intent::Extension(..) => 0,
        Intent::FuncUp | Intent::FuncDown | Intent::FuncLeft | Intent::FuncRight | Intent::SetSubLayout(..) | Intent::CycleFunctionPanel | Intent::HideFunctionPanel | Intent::ShowFunctionContent { .. } | Intent::UpdateFunctionView(..) | Intent::LoadContent { .. } | Intent::ScrollUp | Intent::ScrollDown | Intent::ScrollTop | Intent::ScrollBottom | Intent::PageUp | Intent::PageDown | Intent::SetScroll(..) | Intent::ToggleLineNumbers | Intent::KillProcess | Intent::FocusNextPanel | Intent::FocusPrevPanel | Intent::FocusPanel(..) => 1,
        Intent::FunctionSearchStart | Intent::FunctionSearchSubmit | Intent::FunctionSearchNext | Intent::FunctionSearchPrev | Intent::FunctionSearchCancel | Intent::SetSearchMatches(..) | Intent::ResetContentView | Intent::RawKeyEvent(..) => 2,
        Intent::RunResolver(..) | Intent::Open { .. } | Intent::Edit { .. } | Intent::Execute { .. } | Intent::StartCopy | Intent::StartMove | Intent::StartRename | Intent::DeleteSelected | Intent::StartEdit => 3,
        Intent::PushMode(..) | Intent::PopMode | Intent::Confirm | Intent::Cancel | Intent::UpdateExtensionState(..) => 4,
    }
}

fn group_of(i: &Intent) -> (g: u8)
    ensures
        g as int == group(*i),
{
    match i {
        Intent::CursorUp | Intent::CursorDown | Intent::CursorLeft | Intent::CursorRight | Intent::CursorTop | Intent::CursorBottom | Intent::Activate | Intent::NavigateTo(..) | Intent::ToggleSelect | Intent::SelectAll | Intent::ClearSelection | Intent::ToggleDotFiles | Intent::CycleListLayout | Intent::Refresh | Intent::Quit | Intent::Noop | Intent::Extension(..) => 0,
        Intent::FuncUp | Intent::FuncDown | Intent::FuncLeft | Intent::FuncRight | Intent::SetSubLayout(..) | Intent::CycleFunctionPanel | Intent::HideFunctionPanel | Intent::ShowFunctionContent { .. } | Intent::UpdateFunctionView(..) | Intent::LoadContent { .. } | Intent::ScrollUp | Intent::ScrollDown | Intent::ScrollTop | Intent::ScrollBottom | Intent::PageUp | Intent::PageDown | Intent::SetScroll(..) | Intent::ToggleLineNumbers | Intent::KillProcess | Intent::FocusNextPanel | Intent::FocusPrevPanel | Intent::FocusPanel(..) => 1,
        Intent::FunctionSearchStart | Intent::FunctionSearchSubmit | Intent::FunctionSearchNext | Intent::FunctionSearchPrev | Intent::FunctionSearchCancel | Intent::SetSearchMatches(..) | Intent::ResetContentView | Intent::RawKeyEvent(..) => 2,
        Intent::RunResolver(..) | Intent::Open { .. } | Intent::Edit { .. } | Intent::Execute { .. } | Intent::StartCopy | Intent::StartMove | Intent::StartRename | Intent::DeleteSelected | Intent::StartEdit => 3,
        Intent::PushMode(..) | Intent::PopMode | Intent::Confirm | Intent::Cancel | Intent::UpdateExtensionState(..) => 4,
    }
}

/// Browsing: cursor moves, directory changes, the selection and listing toggles.
fn apply_browse<C: CommandLookup>(state: &mut AppState, intent: Intent, ctx: &C) -> (fx: Effects)
    requires
        ready(*old(state)),
        group(intent) == 0,
    ensures
        apply_intent_post(*old(state), *final(state), fx, intent),
{
    match intent {
        Intent::CursorUp => cursor_move(state, Dir::Up),
        Intent::CursorDown => cursor_move(state, Dir::Down),
        Intent::CursorTop => cursor_jump(state, false),
        Intent::CursorBottom => cursor_jump(state, true),
        Intent::CursorLeft => cursor_move(state, Dir::Left),
        Intent::CursorRight => cursor_move(state, Dir::Right),
        Intent::Activate => activate(state),
        Intent::NavigateTo(path) => {
            let is_dir = ctx.is_dir(path.as_str());
            navigate_with(state, path, is_dir)
        }
        Intent::ToggleSelect => {
            toggle_select(state);
            Effects::none()
        }
        Intent::SelectAll => {
            select_all(state);
            Effects::none()
        }
        Intent::ClearSelection => {
            state.selection.clear();
            Effects::none()
        }
        Intent::ToggleDotFiles => {
            state.show_hidden = !state.show_hidden;
            crate::nav::read_dir_effect(state)
        }
        Intent::CycleListLayout => {
            state.list_layout = state.list_layout.next();
            Effects::none()
        }
        Intent::Refresh => refresh(state),
        Intent::Quit => {
            state.quit = true;
            Effects::none()
        }
        Intent::Noop => Effects::none(),
        Intent::Extension(_) => Effects::none(),

        _ => {
            assert(false);
            Effects::none()
        }
    }
}

/// The function panel's view: visibility, frame, scroll, focus.
fn apply_panel(state: &mut AppState, intent: Intent) -> (fx: Effects)
    requires
        ready(*old(state)),
        group(intent) == 1,
    ensures
        apply_intent_post(*old(state), *final(state), fx, intent),
{
    match intent {
        Intent::FuncUp => {
            state.function.scroll = if state.function.scroll >= 1 { state.function.scroll - 1 } else { 0 };
            Effects::none()
        }
        Intent::FuncDown => {
            state.function.scroll = state.function.scroll + 1;
            Effects::none()
        }
        Intent::FuncLeft => {
            state.function.hscroll = if state.function.hscroll >= HSCROLL_STEP { state.function.hscroll - HSCROLL_STEP } else { 0 };
            Effects::none()
        }
        Intent::FuncRight => {
            state.function.hscroll = state.function.hscroll + HSCROLL_STEP;
            Effects::none()
        }
        Intent::SetSubLayout(sl) => {
            state.function.visible = true;
            state.function.sublayout = sl;
            Effects::none()
        }
        Intent::CycleFunctionPanel => {
            cycle_function_panel(state);
            Effects::none()
        }
        Intent::HideFunctionPanel => {
            state.function.visible = false;
            state.focused_panel = "file".to_owned();
            Effects::none()
        }
        Intent::ShowFunctionContent { owner, content } => {
            state.function.visible = true;
            state.function.sublayout = SubLayout::Content;
            state.function.scroll = 0;
            state.function.hscroll = 0;
            state.function.search = PanelSearch::default();
            state.function.content = Some(content);
            state.function.content_owner = Some(owner);
            state.focused_panel = "function".to_owned();
            Effects::none()
        }
        Intent::UpdateFunctionView(value) => {
            state.function.ext_view = value;
            Effects::none()
        }
        Intent::LoadContent { owner, path, offset } => {
            state.function.content_owner = Some(owner.clone());
            Effects::plan(Plan::Read { owner, path, offset })
        }
        Intent::ScrollUp => {
            state.function.scroll = if state.function.scroll >= 1 { state.function.scroll - 1 } else { 0 };
            Effects::none()
        }
        Intent::ScrollDown => {
            state.function.scroll = state.function.scroll + 1;
            Effects::none()
        }
        Intent::ScrollTop => {
            state.function.scroll = 0;
            Effects::none()
        }
        Intent::ScrollBottom => {
            state.function.scroll = usize::MAX / 2;
            Effects::none()
        }
        Intent::PageUp => {
            state.function.scroll = if state.function.scroll >= 10 { state.function.scroll - 10 } else { 0 };
            Effects::none()
        }
        Intent::PageDown => {
            state.function.scroll = state.function.scroll + 10;
            Effects::none()
        }
        Intent::SetScroll(n) => {
            state.function.scroll = n;
            Effects::none()
        }
        Intent::ToggleLineNumbers => {
            state.function.show_line_numbers = !state.function.show_line_numbers;
            Effects::none()
        }
        Intent::FocusNextPanel => {
            focus_cycle(state, true);
            Effects::none()
        }
        Intent::FocusPrevPanel => {
            focus_cycle(state, false);
            Effects::none()
        }
        Intent::FocusPanel(id) => {
            state.focused_panel = id;
            Effects::none()
        }
        Intent::KillProcess => {
            state.function.exec_out.finished = true;
            Effects::none()
        }
        _ => {
            assert(false);
            Effects::none()
        }
    }
}

/// The content search and raw-key editing.
fn apply_search<C: CommandLookup>(state: &mut AppState, intent: Intent, ctx: &C) -> (fx: Effects)
    requires
        ready(*old(state)),
        group(intent) == 2,
    ensures
        apply_intent_post(*old(state), *final(state), fx, intent),
        commands_post(ctx, *old(state), *final(state), fx, intent),
{
    match intent {
        Intent::FunctionSearchStart => {
            state.function.search.input_active = true;
            state.function.search.query = String::new();
            state.function.search.caret = 0;
            state.function.search.matches.clear();
            state.function.search.current = 0;
            state.focused_panel = "function".to_owned();
            Effects::none()
        }
        Intent::FunctionSearchSubmit => {
            state.function.search.input_active = false;
            state.focused_panel = "file".to_owned();
            match &state.function.content_owner {
                Some(owner) => {
                    let data = ExtensionValue::String(state.function.search.query.clone());
                    proof {
                        reveal_strlit("search");
                    }
                    Effects::emit_one(Intent::Extension(ExtensionIntent {
                        extension: owner.clone(),
                        intent: "search".to_owned(),
                        data,
                    }))
                }
                None => Effects::none(),
            }
        }
        Intent::SetSearchMatches(matches) => {
            state.function.search.current = 0;
            state.function.search.matches = matches;
            Effects::none()
        }
        Intent::FunctionSearchNext => {
            search_step(state, true);
            Effects::none()
        }
        Intent::FunctionSearchPrev => {
            search_step(state, false);
            Effects::none()
        }
        Intent::FunctionSearchCancel => {
            state.function.search.input_active = false;
            state.focused_panel = "file".to_owned();
            Effects::none()
        }
        Intent::ResetContentView => {
            state.function.scroll = 0;
            state.function.hscroll = 0;
            state.function.search = PanelSearch::default();
            Effects::none()
        }
        Intent::RawKeyEvent(key) => raw_key(state, key, ctx),
        _ => {
            assert(false);
            Effects::none()
        }
    }
}

/// External commands and the initiators that build them.
fn apply_command<C: CommandLookup>(state: &mut AppState, intent: Intent, ctx: &C) -> (fx: Effects)
    requires
        ready(*old(state)),
        group(intent) == 3,
    ensures
        apply_intent_post(*old(state), *final(state), fx, intent),
{
    match intent {
        Intent::RunResolver(req) => Effects::plan(Plan::ResolveAndRun { request: req }),
        Intent::Open { path } => {
            let p = if path.as_str().is_empty() {
                if state.cursor < state.entries.len() {
                    state.entries[state.cursor].path.clone()
                } else {
                    return Effects::none();
                }
            } else {
                path
            };
            let mut paths: Vec<String> = Vec::new();
            paths.push(p.clone());
            let req = ResolverRequest {
                op: "open".to_owned(),
                src: None,
                dst: None,
                path: Some(p),
                paths,
                opts: Vec::new(),
                label: "open".to_owned(),
            };
            assert(views(req.paths@) =~= seq![req.path->0@]);
            Effects::plan(Plan::ResolveAndRun { request: req })
        }
        Intent::Edit { path } => {
            let mut argv: Vec<String> = Vec::new();
            argv.push(ctx.editor());
            argv.push(path);
            Effects::plan(Plan::Suspend { argv })
        }
        Intent::Execute { argv } => {
            state.function.visible = true;
            state.function.sublayout = SubLayout::Exec;
            state.function.exec_out.lines.clear();
            state.function.exec_out.finished = false;
            state.function.exec_out.exit = None;
            Effects::plan(Plan::Execute { argv })
        }
        Intent::StartCopy => start_transfer(state, ctx, false),
        Intent::StartMove => start_transfer(state, ctx, true),
        Intent::StartRename => start_rename(state, ctx),
        Intent::DeleteSelected => {
            let paths = state.targets();
            if paths.len() == 0 {
                assert(views(paths@).len() == 0);
                return Effects::notice(Notice::error("nothing to delete"));
            }
            Effects::emit_one(Intent::RunResolver(op_request("delete", paths, None)))
        }
        Intent::StartEdit => {
            let mut targets = state.targets();
            if targets.len() != 1 {
                return Effects::notice(Notice::error("edit needs exactly one target"));
            }
            let p = targets.remove(0);
            Effects::emit_one(Intent::Edit { path: p })
        }
        _ => {
            assert(false);
            Effects::none()
        }
    }
}

/// The mode stack.
fn apply_mode<C: CommandLookup>(state: &mut AppState, intent: Intent, ctx: &C) -> (fx: Effects)
    requires
        ready(*old(state)),
        group(intent) == 4,
    ensures
        apply_intent_post(*old(state), *final(state), fx, intent),
        commands_post(ctx, *old(state), *final(state), fx, intent),
{
    match intent {
        Intent::PushMode(mode) => push_mode(state, *mode, ctx),
        Intent::PopMode => {
            let n = state.modes.len();
            let was_select = match &state.modes[n - 1].mode {
                Mode::Select(_) => true,
                _ => false,
            };
            state.pop_mode();
            let m = state.modes.len();
            let now_select = match &state.modes[m - 1].mode {
                Mode::Select(_) => true,
                _ => false,
            };
            if was_select && !now_select {
                state.select = None;
            }
            Effects::none()
        }
        Intent::Confirm => select_confirm(state, ctx),
        Intent::Cancel => {
            let n = state.modes.len();
            let in_select = match &state.modes[n - 1].mode {
                Mode::Select(_) => true,
                _ => false,
            };
            if in_select {
                state.pop_mode();
                state.select = None;
            }
            Effects::none()
        }
        Intent::UpdateExtensionState(value) => {
            let n = state.modes.len();
            let is_ext = match &state.modes[n - 1].mode {
                Mode::Extension { .. } => true,
                _ => false,
            };
            if is_ext {
                let ghost m0 = state.modes@;
                let mut frame = state.modes.pop().unwrap();
                match &mut frame.mode {
                    Mode::Extension { state: s, .. } => *s = value,
                    _ => {}
                }
                state.modes.push(frame);
                assert(state.modes@ =~= m0.update(m0.len() - 1, frame));
            }
            Effects::none()
        }
        _ => {
            assert(false);
            Effects::none()
        }
    }
}

/// Apply an intent to the state, returning the effects to perform.
pub fn apply_intent<C: CommandLookup>(state: &mut AppState, intent: Intent, ctx: &C) -> (fx: Effects)
    requires
        ready(*old(state)),
    ensures
        apply_intent_post(*old(state), *final(state), fx, intent),
        commands_post(ctx, *old(state), *final(state), fx, intent),
{
    let g = group_of(&intent);
    if g == 0 {
        apply_browse(state, intent, ctx)
    } else if g == 1 {
        apply_panel(state, intent)
    } else if g == 2 {
        apply_search(state, intent, ctx)
    } else if g == 3 {
        apply_command(state, intent, ctx)
    } else {
        apply_mode(state, intent, ctx)
    }
}

// --- the mode stack keeps its shape -------------------------------------------------

proof fn lemma_refilter_keeps_the_stack(s: AppState, new: AppState, fx: Effects)
    requires
        refilter_post(s, new, fx),
    ensures
        new.modes == s.modes,
        new.next_generation == s.next_generation,
{
    match s.modes@.last().mode {
        Mode::Select(spec) => match spec.source {
            SelectSource::PathCompletion => {
                let c = choose|children: Seq<String>| results_applied(s, new, completions_spec(#[trigger] views(children)));
            },
            SelectSource::Static(pool) => {
                let p = choose|p: Seq<Candidate>| #[trigger] cand_models(p) == cand_models(pool@)
                    && results_applied(s, new, cand_models(
                        if spec.input == SelectInput::Fuzzy { fuzzy_rank_spec(p, query_of(s)) } else { p }));
            },
            _ => {},
        },
        _ => {},
    }
}

proof fn lemma_push_keeps_the_stack(old: AppState, new: AppState, fx: Effects, m: Mode)
    requires
        stack_ok(old),
        push_mode_post(old, new, fx, m),
    ensures
        stack_ok(new),
{
    let mid = choose|mid: AppState| #[trigger] pushed_fresh(old, m, mid) && (if mid.modes@.last().mode is Select {
        refilter_post(mid, new, fx)
    } else {
        new == mid && fx_none(fx)
    });
    let pm = mid.modes@.last().mode;
    let base = if pm is Select && old.modes@.last().mode is Select && old.modes@.len() > 1 {
        old.modes@.drop_last()
    } else {
        old.modes@
    };
    assert(mid.modes@ == base.push(ModeFrame { mode: pm, generation: old.next_generation }));
    assert(mid.modes@[0] == old.modes@[0]);
    assert forall|i: int| 0 <= i < mid.modes@.len() implies (#[trigger] mid.modes@[i]).generation < mid.next_generation by {
        if i < base.len() {
            assert(mid.modes@[i] == old.modes@[i]);
        }
    }
    if pm is Select {
        lemma_refilter_keeps_the_stack(mid, new, fx);
    }
}

/// Every reducer step keeps the mode stack's shape: never empty, the file
/// mode at its base, and every generation on it below the next one handed
/// out.
pub proof fn law_reducer_keeps_the_stack(old: AppState, new: AppState, fx: Effects, i: Intent)
    requires
        stack_ok(old),
        apply_intent_post(old, new, fx, i),
    ensures
        stack_ok(new),
{
    match i {
        Intent::NavigateTo(path) => {
            let is_dir = choose|is_dir: bool| #[trigger] navigate_post(old, new, fx, path, is_dir);
        },
        Intent::StartCopy => {
            if targets_spec(old).len() > 0 {
                let m = choose|m: Mode| command_select(m, "copy"@, targets_spec(old), None, None)
                    && #[trigger] push_mode_post(old, new, fx, m);
                lemma_push_keeps_the_stack(old, new, fx, m);
            }
        },
        Intent::StartMove => {
            if targets_spec(old).len() > 0 {
                let m = choose|m: Mode| command_select(m, "move"@, targets_spec(old), None, None)
                    && #[trigger] push_mode_post(old, new, fx, m);
                lemma_push_keeps_the_stack(old, new, fx, m);
            }
        },
        Intent::StartRename => {
            let t = targets_spec(old);
            if t.len() == 1 {
                let m = choose|m: Mode| command_select(m, "rename"@, Seq::empty(), Some(t[0]),
                    Some(match path_file_name(t[0]) { Some(n) => n, None => Seq::empty() }))
                    && #[trigger] push_mode_post(old, new, fx, m);
                lemma_push_keeps_the_stack(old, new, fx, m);
            }
        },
        Intent::PushMode(m) => lemma_push_keeps_the_stack(old, new, fx, *m),
        Intent::PopMode => law_stack_preserved_by_pop(old, new),
        Intent::Cancel => {
            if old.modes@.last().mode is Select {
                law_stack_preserved_by_pop(old, new);
            }
        },
        Intent::Confirm => {
            let top = old.modes@.last().mode;
            if top is Select && old.select is Some && old.modes@.len() == 1 {
                assert(old.modes@[0] == old.modes@.last());
            }
            if top is Select && old.modes@.len() > 1 {
                assert forall|j: int| 0 <= j < new.modes@.len() implies (#[trigger] new.modes@[j]).generation < new.next_generation by {
                    if new.modes@ == old.modes@.drop_last() {
                        assert(new.modes@[j] == old.modes@[j]);
                    }
                }
            }
        },
        Intent::RawKeyEvent(key) => {
            if !old.function.search.input_active {
                match old.select {
                    Some(sel) => if !(sel.phase == SelectPhase::Navigate && printable_of(key) is None) {
                        let mid = choose|mid: AppState| #[trigger] mid.select == Some(mid.select->0)
                            && edited(sel, mid.select->0, key)
                            && mid == (AppState { select: mid.select, ..old })
                            && refilter_post(mid, new, fx);
                        lemma_refilter_keeps_the_stack(mid, new, fx);
                    },
                    None => {},
                }
            }
        },
        Intent::UpdateExtensionState(v) => {
            if old.modes@.last().mode is Extension {
                assert(old.modes@.len() > 1) by {
                    if old.modes@.len() == 1 {
                        assert(old.modes@[0] == old.modes@.last());
                    }
                }
                assert forall|j: int| 0 <= j < new.modes@.len() implies (#[trigger] new.modes@[j]).generation < new.next_generation by {
                    if j < old.modes@.len() - 1 {
                        assert(new.modes@[j] == old.modes@[j]);
                    }
                }
            }
        },
        _ => {},
    }
}


proof fn lemma_refilter_keeps_selection(s: AppState, new: AppState, fx: Effects)
    requires
        refilter_post(s, new, fx),
    ensures
        new.selection == s.selection,
{
    match s.modes@.last().mode {
        Mode::Select(spec) => match spec.source {
            SelectSource::PathCompletion => {
                let c = choose|children: Seq<String>| results_applied(s, new, completions_spec(#[trigger] views(children)));
            },
            SelectSource::Static(pool) => {
                let p = choose|p: Seq<Candidate>| #[trigger] cand_models(p) == cand_models(pool@)
                    && results_applied(s, new, cand_models(
                        if spec.input == SelectInput::Fuzzy { fuzzy_rank_spec(p, query_of(s)) } else { p }));
            },
            SelectSource::Commands => {
                let p = choose|p: Seq<Candidate>| #[trigger] crate::select::commands_ranked(s, new, p, spec);
            },
            _ => {},
        },
        _ => {},
    }
}

proof fn lemma_push_keeps_selection(old: AppState, new: AppState, fx: Effects, m: Mode)
    requires
        push_mode_post(old, new, fx, m),
    ensures
        new.selection == old.selection,
{
    let mid = choose|mid: AppState| #[trigger] pushed_fresh(old, m, mid) && (if mid.modes@.last().mode is Select {
        refilter_post(mid, new, fx)
    } else {
        new == mid && fx_none(fx)
    });
    if mid.modes@.last().mode is Select {
        lemma_refilter_keeps_selection(mid, new, fx);
    }
}

/// Every reducer step keeps the selection a set: no path is ever selected
/// twice.
pub proof fn law_reducer_keeps_selection_a_set(old: AppState, new: AppState, fx: Effects, i: Intent)
    requires
        views(old.selection@).no_duplicates(),
        apply_intent_post(old, new, fx, i),
    ensures
        views(new.selection@).no_duplicates(),
{
    match i {
        Intent::NavigateTo(path) => {
            let is_dir = choose|is_dir: bool| #[trigger] navigate_post(old, new, fx, path, is_dir);
            assert(views(new.selection@) =~= Seq::<Seq<char>>::empty());
        },
        Intent::Activate => {
            if old.cursor < old.entries@.len() && old.entries@[old.cursor as int].is_dir {
                assert(views(new.selection@) =~= Seq::<Seq<char>>::empty());
            }
        },
        Intent::ToggleSelect => {
            if old.modes@.last().mode is Select {
                match old.select {
                    Some(sel) => match sel.view {
                        Some(v) => if v.cursor < v.entries@.len() {
                            law_toggle_keeps_a_set(views(old.selection@), v.entries@[v.cursor as int].path@);
                        },
                        None => {},
                    },
                    None => {},
                }
            } else if old.cursor < old.entries@.len() {
                law_toggle_keeps_a_set(views(old.selection@), old.entries@[old.cursor as int].path@);
            }
        },
        Intent::SelectAll => law_select_all_keeps_a_set(views(old.selection@), entry_paths(old.entries@)),
        Intent::ClearSelection => {
            assert(views(new.selection@) =~= Seq::<Seq<char>>::empty());
        },
        Intent::StartCopy => {
            if targets_spec(old).len() > 0 {
                let m = choose|m: Mode| command_select(m, "copy"@, targets_spec(old), None, None)
                    && #[trigger] push_mode_post(old, new, fx, m);
                lemma_push_keeps_selection(old, new, fx, m);
            }
        },
        Intent::StartMove => {
            if targets_spec(old).len() > 0 {
                let m = choose|m: Mode| command_select(m, "move"@, targets_spec(old), None, None)
                    && #[trigger] push_mode_post(old, new, fx, m);
                lemma_push_keeps_selection(old, new, fx, m);
            }
        },
        Intent::StartRename => {
            let t = targets_spec(old);
            if t.len() == 1 {
                let m = choose|m: Mode| command_select(m, "rename"@, Seq::empty(), Some(t[0]),
                    Some(match path_file_name(t[0]) { Some(n) => n, None => Seq::empty() }))
                    && #[trigger] push_mode_post(old, new, fx, m);
                lemma_push_keeps_selection(old, new, fx, m);
            }
        },
        Intent::PushMode(m) => lemma_push_keeps_selection(old, new, fx, *m),
        Intent::RawKeyEvent(key) => {
            if !old.function.search.input_active {
                match old.select {
                    Some(sel) => if !(sel.phase == SelectPhase::Navigate && printable_of(key) is None) {
                        let mid = choose|mid: AppState| #[trigger] mid.select == Some(mid.select->0)
                            && edited(sel, mid.select->0, key)
                            && mid == (AppState { select: mid.select, ..old })
                            && refilter_post(mid, new, fx);
                        lemma_refilter_keeps_selection(mid, new, fx);
                    },
                    None => {},
                }
            }
        },
        _ => {},
    }
}

} // verus!
