use wasdf::apply::{apply_intent, HSCROLL_STEP};
use wasdf::event::{PanelContent, Plan};
use wasdf::intent::{Intent, Key, KeyCode};
use wasdf::mode::{Candidate, CmdToken, Mode, ResolveFill, SelectInput, SelectSource, SelectSpec, SubLayout};
use wasdf::reducer::{CommandLookup, NoCommands};
use wasdf::select::{op_request, refilter};
use wasdf::state::{AppState, Entry, EntryList, ListGeom, ListLayout, SelectPhase, SelectState};
use wasdf::value::ExtensionValue;

fn tmp() -> String {
    "/tmp".to_string()
}

fn type_query(s: &mut AppState, q: &str) {
    for c in q.chars() {
        apply_intent(s, Intent::RawKeyEvent(Key::plain(KeyCode::Char(c))), &NoCommands);
    }
}

fn file_entries(n: usize) -> Vec<Entry> {
    (0..n)
        .map(|i| Entry {
            path: format!("/d/f{i}"),
            name: format!("f{i}"),
            is_dir: false,
            is_symlink: false,
            size: 0,
            mode: 0,
            uid: 0,
            gid: 0,
            modified: None,
            created: None,
            accessed: None,
            symlink_target: None,
        })
        .collect()
}

fn grid_state(n: usize, cols: usize, rows: usize) -> AppState {
    let mut s = AppState::new("/d".to_string());
    s.entries = file_entries(n);
    s.list_layout = ListLayout::Grid;
    s.list_geom = ListGeom { cols, rows };
    s
}

fn mv(s: &mut AppState, intent: Intent) {
    apply_intent(s, intent, &NoCommands);
}

#[test]
fn func_left_right_scroll_horizontally() {
    let mut s = AppState::new(tmp());
    s.function.visible = true;
    apply_intent(&mut s, Intent::FuncRight, &NoCommands);
    assert_eq!(s.function.hscroll, HSCROLL_STEP);
    apply_intent(&mut s, Intent::FuncLeft, &NoCommands);
    assert_eq!(s.function.hscroll, 0);
    apply_intent(&mut s, Intent::FuncLeft, &NoCommands);
    assert_eq!(s.function.hscroll, 0, "saturates at zero");
}

#[test]
fn file_search_results_navigate_as_an_entry_grid() {
    let mut s = AppState::new("/d".to_string());
    s.push_mode(Mode::Select(SelectSpec::file_search()));
    let entries = file_entries(3);
    let mut sel = SelectState::new(String::new(), true);
    sel.phase = SelectPhase::Navigate;
    sel.view = Some(EntryList { entries: entries.clone(), cursor: 0 });
    s.select = Some(sel);

    apply_intent(&mut s, Intent::CursorDown, &NoCommands);
    assert_eq!(s.select.as_ref().unwrap().view.as_ref().unwrap().cursor, 1);
    apply_intent(&mut s, Intent::CursorBottom, &NoCommands);
    assert_eq!(s.select.as_ref().unwrap().view.as_ref().unwrap().cursor, 2);
    apply_intent(&mut s, Intent::CursorUp, &NoCommands);
    assert_eq!(s.select.as_ref().unwrap().view.as_ref().unwrap().cursor, 1);

    let fx = apply_intent(&mut s, Intent::Confirm, &NoCommands);
    match fx.intents.as_slice() {
        [Intent::NavigateTo(p)] => assert_eq!(p, &entries[1].path),
        other => panic!("expected NavigateTo(current entry), got {other:?}"),
    }
}

#[test]
fn search_input_routes_through_raw_key() {
    let mut s = AppState::new(tmp());
    apply_intent(&mut s, Intent::FunctionSearchStart, &NoCommands);
    assert!(s.function.search.input_active);
    type_query(&mut s, "foo");
    assert_eq!(s.function.search.query, "foo");
    apply_intent(&mut s, Intent::RawKeyEvent(Key::plain(KeyCode::Backspace)), &NoCommands);
    assert_eq!(s.function.search.query, "fo");
}

#[test]
fn search_submit_delegates_to_the_owning_extension() {
    let mut s = AppState::new(tmp());
    s.function.content_owner = Some("x".into());
    apply_intent(&mut s, Intent::FunctionSearchStart, &NoCommands);
    type_query(&mut s, "foo");
    let fx = apply_intent(&mut s, Intent::FunctionSearchSubmit, &NoCommands);
    assert!(!s.function.search.input_active);
    match fx.intents.as_slice() {
        [Intent::Extension(ei)] => {
            assert_eq!((ei.extension.as_str(), ei.intent.as_str()), ("x", "search"));
            assert_eq!(ei.data.as_str(), Some("foo"));
        }
        other => panic!("expected an (ext x search) intent, got {other:?}"),
    }
}

#[test]
fn store_matches_then_navigate() {
    let mut s = AppState::new(tmp());
    apply_intent(&mut s, Intent::SetSearchMatches(vec![(0, 0, 1), (2, 0, 1), (5, 0, 1)]), &NoCommands);
    assert_eq!(s.function.search.matches.len(), 3);
    assert_eq!(s.function.search.current, 0);
    apply_intent(&mut s, Intent::FunctionSearchNext, &NoCommands);
    assert_eq!((s.function.search.current, s.function.scroll), (1, 2));
    apply_intent(&mut s, Intent::FunctionSearchPrev, &NoCommands);
    apply_intent(&mut s, Intent::FunctionSearchPrev, &NoCommands);
    assert_eq!((s.function.search.current, s.function.scroll), (2, 5), "prev wraps");
    apply_intent(&mut s, Intent::SetScroll(9), &NoCommands);
    assert_eq!(s.function.scroll, 9);
}

#[test]
fn reset_content_view_clears_scroll_and_search() {
    let mut s = AppState::new(tmp());
    s.function.scroll = 5;
    s.function.hscroll = 3;
    s.function.search.matches = vec![(0, 0, 1)];
    apply_intent(&mut s, Intent::ResetContentView, &NoCommands);
    assert_eq!((s.function.scroll, s.function.hscroll), (0, 0));
    assert!(s.function.search.matches.is_empty());
}

#[test]
fn refresh_reloads_visible_function_content() {
    let mut s = AppState::new("/d".to_string());
    s.entries = file_entries(2);
    s.cursor = 1;
    s.function.visible = true;
    s.function.sublayout = SubLayout::Content;
    s.function.content_owner = Some("preview".into());
    let fx = apply_intent(&mut s, Intent::Refresh, &NoCommands);
    assert!(matches!(fx.plans.as_slice(), [Plan::ReadDir { .. }]), "re-reads the directory");
    match fx.intents.as_slice() {
        [Intent::LoadContent { owner, path, offset }] => {
            assert_eq!(owner, "preview");
            assert_eq!(path, &s.entries[1].path);
            assert_eq!(*offset, 0, "forced reload from the start bypasses the owner cache");
        }
        other => panic!("expected a forced LoadContent, got {other:?}"),
    }

    s.function.visible = false;
    let fx = apply_intent(&mut s, Intent::Refresh, &NoCommands);
    assert!(fx.intents.is_empty(), "no content reload when the panel is hidden");
}

#[test]
fn show_function_content_populates_and_focuses_the_panel() {
    let mut s = AppState::new(tmp());
    let content = PanelContent::Lines { lines: vec!["hi".into()], styles: vec![Vec::new()] };
    apply_intent(&mut s, Intent::ShowFunctionContent { owner: "ext".into(), content }, &NoCommands);
    assert!(s.function.visible);
    assert_eq!(s.function.sublayout, SubLayout::Content);
    assert_eq!(s.function.content_owner.as_deref(), Some("ext"));
    assert_eq!(s.focused_panel, "function");
    assert!(s.function.content.is_some());
    apply_intent(&mut s, Intent::ScrollDown, &NoCommands);
    assert_eq!(s.function.scroll, 1);
}

#[test]
fn update_function_view_stores_opaque_state() {
    let mut s = AppState::new(tmp());
    apply_intent(&mut s, Intent::UpdateFunctionView(ExtensionValue::Int(7)), &NoCommands);
    assert_eq!(s.function.ext_view, ExtensionValue::Int(7));
}

#[test]
fn list_layout_cycles_rows_columns_grid() {
    assert_eq!(ListLayout::Rows.next(), ListLayout::Columns);
    assert_eq!(ListLayout::Columns.next(), ListLayout::Grid);
    assert_eq!(ListLayout::Grid.next(), ListLayout::Rows);
    let mut s = AppState::new(tmp());
    mv(&mut s, Intent::CycleListLayout);
    assert_eq!(s.list_layout, ListLayout::Columns);
}

#[test]
fn rows_fallback_wasd_clamps() {
    let mut s = AppState::new("/d".to_string());
    s.entries = file_entries(3);
    mv(&mut s, Intent::CursorDown);
    assert_eq!(s.cursor, 1);
    mv(&mut s, Intent::CursorDown);
    mv(&mut s, Intent::CursorDown);
    assert_eq!(s.cursor, 2, "clamps at the last entry");
    mv(&mut s, Intent::CursorUp);
    assert_eq!(s.cursor, 1);
}

#[test]
fn grid_wasd_moves_2d_column_major() {
    let mut s = grid_state(7, 3, 3);
    s.cursor = 0;
    mv(&mut s, Intent::CursorDown);
    assert_eq!(s.cursor, 1);
    mv(&mut s, Intent::CursorRight);
    assert_eq!(s.cursor, 4);
    mv(&mut s, Intent::CursorRight);
    assert_eq!(s.cursor, 4);
    mv(&mut s, Intent::CursorUp);
    assert_eq!(s.cursor, 3);
    mv(&mut s, Intent::CursorRight);
    assert_eq!(s.cursor, 6);
    mv(&mut s, Intent::CursorUp);
    assert_eq!(s.cursor, 6);
}

#[test]
fn left_edge_escapes_to_parent_all_layouts() {
    let mut s = grid_state(7, 3, 3);
    s.cursor = 1;
    mv(&mut s, Intent::CursorLeft);
    assert_eq!(s.cwd, "/", "left wall escapes to parent");
    assert_eq!(s.pending_focus.as_deref(), Some("/d"));
}

#[test]
fn grid_right_wall_clamps() {
    let mut s = grid_state(7, 3, 3);
    s.cursor = 6;
    mv(&mut s, Intent::CursorRight);
    assert_eq!(s.cursor, 6, "grid right wall clamps");
    assert!(!s.function.visible, "grid right wall does nothing");
}

#[test]
fn rows_d_on_file_cycles_content_without_focus() {
    let mut s = AppState::new("/d".to_string());
    s.entries = file_entries(3);
    s.cursor = 1;
    assert!(!s.function.visible);
    mv(&mut s, Intent::CursorRight);
    assert!(s.function.visible);
    assert_eq!(s.function.sublayout, SubLayout::Content);
    assert_eq!(s.focused_panel, "file", "content cycle does not steal focus");
    let r0 = s.function.ratio;
    mv(&mut s, Intent::CursorRight);
    assert_ne!(s.function.ratio, r0, "second d advances the ratio");
    mv(&mut s, Intent::CursorRight);
    mv(&mut s, Intent::CursorRight);
    assert!(s.function.visible, "d never hides the content");
}

#[test]
fn cycle_content_restores_content_from_exec() {
    let mut s = AppState::new("/d".to_string());
    s.entries = file_entries(2);
    s.cursor = 0;
    s.function.visible = true;
    s.function.sublayout = SubLayout::Exec;
    mv(&mut s, Intent::CursorRight);
    assert_eq!(s.function.sublayout, SubLayout::Content, "d forces Content back");
}

#[test]
fn enter_on_file_opens_via_resolver() {
    let mut s = AppState::new("/d".to_string());
    s.entries = file_entries(2);
    s.cursor = 0;
    let fx = apply_intent(&mut s, Intent::Activate, &NoCommands);
    assert!(!s.function.visible, "Enter on a file does not show content");
    match fx.intents.as_slice() {
        [Intent::Open { path }] => assert!(path.is_empty(), "opens the cursor entry"),
        other => panic!("expected an Open intent, got {other:?}"),
    }
}

#[test]
fn enter_on_dir_enters_it() {
    let mut s = AppState::new("/d".to_string());
    let mut es = file_entries(1);
    es[0].is_dir = true;
    es[0].path = "/d/sub".to_string();
    s.entries = es;
    s.cursor = 0;
    apply_intent(&mut s, Intent::Activate, &NoCommands);
    assert_eq!(s.cwd, "/d/sub", "Enter on a dir enters it");
}

#[test]
fn search_start_focuses_function_submit_and_cancel_release() {
    let mut s = AppState::new("/d".to_string());
    s.function.content_owner = Some("x".into());
    mv(&mut s, Intent::FunctionSearchStart);
    assert_eq!(s.focused_panel, "function", "/ borrows focus for query input");
    assert!(s.function.search.input_active);
    mv(&mut s, Intent::FunctionSearchSubmit);
    assert_eq!(s.focused_panel, "file", "Enter releases focus to the file list");
    mv(&mut s, Intent::FunctionSearchStart);
    assert_eq!(s.focused_panel, "function");
    mv(&mut s, Intent::FunctionSearchCancel);
    assert_eq!(s.focused_panel, "file");
}

/// A lookup that declares two options for `copy`, none otherwise.
struct OptCtx;
impl CommandLookup for OptCtx {
    fn intent_of(&self, _n: &str) -> Option<Intent> {
        None
    }
    fn command_candidates(&self) -> Vec<Candidate> {
        Vec::new()
    }
    fn resolver_options(&self, op: &str) -> Vec<(String, String)> {
        if op == "copy" {
            vec![("-v".into(), "verbose".into()), ("-n".into(), "no-clobber".into())]
        } else {
            Vec::new()
        }
    }
    fn resolver_command(&self, op: &str) -> Vec<CmdToken> {
        match op {
            "copy" => vec![CmdToken::Lit("cp".into()), CmdToken::Lit("-R".into()), CmdToken::Opts, CmdToken::Paths, CmdToken::Dst],
            "move" => vec![CmdToken::Lit("mv".into()), CmdToken::Opts, CmdToken::Paths, CmdToken::Dst],
            _ => Vec::new(),
        }
    }
}

fn select_spec(s: &AppState) -> &SelectSpec {
    match s.mode() {
        Mode::Select(spec) => spec,
        other => panic!("expected Select, got {other:?}"),
    }
}

#[test]
fn command_select_carries_the_real_executable_skeleton() {
    let mut s = AppState::new("/d".to_string());
    s.entries = file_entries(1);
    s.cursor = 0;
    apply_intent(&mut s, Intent::StartMove, &OptCtx);
    assert_eq!(
        select_spec(&s).command_line.first(),
        Some(&CmdToken::Lit("mv".into())),
        "the resolved skeleton names the real executable",
    );
}

#[test]
fn copy_without_options_is_a_command_select_with_no_checkboxes() {
    let mut s = AppState::new("/d".to_string());
    s.entries = file_entries(2);
    s.cursor = 0;
    apply_intent(&mut s, Intent::StartCopy, &NoCommands);
    let spec = select_spec(&s);
    assert_eq!(spec.id, "command");
    assert!(
        matches!(spec.source, SelectSource::Static(ref c) if c.is_empty()),
        "no declared options → empty checkbox list",
    );
}

#[test]
fn delete_selected_emits_a_destructive_run_resolver() {
    let mut s = AppState::new("/d".to_string());
    s.entries = file_entries(2);
    s.cursor = 0;
    let fx = apply_intent(&mut s, Intent::DeleteSelected, &NoCommands);
    match fx.intents.as_slice() {
        [Intent::RunResolver(r)] => {
            assert_eq!(r.op, "delete");
            assert_eq!(r.paths.len(), 1, "cursor entry is the target");
        }
        other => panic!("expected RunResolver(delete), got {other:?}"),
    }
}

#[test]
fn copy_select_is_one_screen_with_option_checkboxes() {
    let mut s = AppState::new("/d".to_string());
    s.entries = file_entries(1);
    s.cursor = 0;
    apply_intent(&mut s, Intent::StartCopy, &OptCtx);
    let spec = select_spec(&s);
    assert_eq!(spec.id, "command");
    assert!(matches!(spec.input, SelectInput::Path), "input is the destination");
    assert!(
        matches!(spec.source, SelectSource::Static(ref c) if c.len() == 2),
        "candidate list is the two declared option checkboxes",
    );
}

#[test]
fn command_dest_input_does_not_filter_the_options() {
    let mut s = AppState::new("/d".to_string());
    let opts = vec![
        Candidate::new("-v  verbose", ExtensionValue::String("-v".into())),
        Candidate::new("-n  no-clobber", ExtensionValue::String("-n".into())),
    ];
    let spec = SelectSpec::command(op_request("copy", vec!["/d/a".to_string()], None), ResolveFill::Dst, opts, None);
    s.push_mode(Mode::Select(spec));
    s.select = Some(SelectState::new("/some/where/else".into(), true));
    refilter(&mut s, &NoCommands);
    assert_eq!(
        s.select.as_ref().unwrap().results.len(),
        2,
        "the dest input is free text, not a filter over the option checkboxes",
    );
}

#[test]
fn command_confirm_runs_with_typed_dst_and_marked_options() {
    let mut s = AppState::new("/d".to_string());
    let template = op_request("copy", vec!["/d/a".to_string()], None);
    let opt = Candidate::new("-v  verbose", ExtensionValue::String("-v".into()));
    let spec = SelectSpec::command(template, ResolveFill::Dst, vec![opt.clone()], None);
    s.push_mode(Mode::Select(spec));
    let mut sel = SelectState::new("/dest".into(), true);
    sel.phase = SelectPhase::Navigate;
    sel.results = vec![opt];
    sel.marks.push("-v  verbose".into());
    s.select = Some(sel);

    let fx = apply_intent(&mut s, Intent::Confirm, &NoCommands);
    match fx.intents.as_slice() {
        [Intent::RunResolver(r)] => {
            assert_eq!(r.op, "copy");
            assert_eq!(r.dst.as_deref(), Some("/dest"), "typed input → dst");
            assert_eq!(r.opts, vec!["-v".to_string()], "marked option → opts");
            assert_eq!(r.paths, vec!["/d/a".to_string()]);
        }
        other => panic!("expected RunResolver(copy), got {other:?}"),
    }
}

#[test]
fn the_selection_never_holds_a_path_twice() {
    let mut s = AppState::new("/d".to_string());
    s.entries = file_entries(3);
    apply_intent(&mut s, Intent::ToggleSelect, &NoCommands);
    apply_intent(&mut s, Intent::SelectAll, &NoCommands);
    apply_intent(&mut s, Intent::SelectAll, &NoCommands);
    assert_eq!(s.selection, vec!["/d/f0".to_string(), "/d/f1".to_string(), "/d/f2".to_string()]);
    apply_intent(&mut s, Intent::ToggleSelect, &NoCommands);
    assert_eq!(s.selection, vec!["/d/f1".to_string(), "/d/f2".to_string()]);
}
