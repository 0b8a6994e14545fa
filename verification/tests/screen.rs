use wasdf::event::{ResolverRequest, StyleRun};
use wasdf::intent::{ExtensionIntent, Intent};
use wasdf::listing::order_entries;
use wasdf::mode::{Candidate, CmdToken, Mode, ResolveFill, SelectSpec};
use wasdf::panels::{clock_text, glyph, line_cells, nav_column, nav_placement, nav_width, nav_window, prop_value, trunc, Paint};
use wasdf::screen::{border_mask, candidate_text, caret_split, help_text, inner, input_title, policy_summary, ratio_left, results_title, screen_bands, split_h, split_v, top_rows, Area, PanelEdge};
use wasdf::state::{AppState, Entry, PanelSearch, SelectState};
use wasdf::summary::command_summary;
use wasdf::registry::ExtensionTable;
use wasdf::value::ExtensionValue;

fn entry(name: &str, is_dir: bool) -> Entry {
    Entry {
        path: format!("/d/{name}"),
        name: name.to_string(),
        is_dir,
        is_symlink: false,
        size: 0,
        mode: 0,
        uid: 0,
        gid: 0,
        modified: None,
        created: None,
        accessed: None,
        symlink_target: None,
    }
}

fn request(op: &str, paths: &[&str], src: Option<&str>) -> ResolverRequest {
    ResolverRequest {
        op: op.to_string(),
        src: src.map(str::to_string),
        dst: None,
        path: None,
        paths: paths.iter().map(|p| p.to_string()).collect(),
        opts: Vec::new(),
        label: op.to_string(),
    }
}

#[test]
fn listing_puts_directories_first_then_names() {
    let es = vec![entry("b.txt", false), entry("zdir", true), entry("a.txt", false), entry("adir", true), entry(".hid", false)];
    let names: Vec<String> = order_entries(es.clone(), false).into_iter().map(|e| e.name).collect();
    assert_eq!(names, vec!["adir", "zdir", "a.txt", "b.txt"]);
    let all: Vec<String> = order_entries(es, true).into_iter().map(|e| e.name).collect();
    assert_eq!(all, vec!["adir", "zdir", ".hid", "a.txt", "b.txt"]);
}

#[test]
fn listing_orders_names_by_code_point() {
    let es = vec![entry("b", false), entry("B", false), entry("a", false), entry("ab", false)];
    let names: Vec<String> = order_entries(es, true).into_iter().map(|e| e.name).collect();
    assert_eq!(names, vec!["B", "a", "ab", "b"]);
}

#[test]
fn command_summary_fills_the_skeleton() {
    let mut state = AppState::new("/home/u".to_string());
    let mut spec = SelectSpec::command(request("copy", &["/home/u/a.txt"], None), ResolveFill::Dst, Vec::new(), None);
    spec.command_line = vec![
        CmdToken::Lit("cp".to_string()),
        CmdToken::Opts,
        CmdToken::Paths,
        CmdToken::Dst,
    ];
    state.push_mode(Mode::Select(spec));
    let mut sel = SelectState::new("out".to_string(), true);
    sel.results = vec![
        Candidate::new("-R  recursive", ExtensionValue::String("-R".to_string())),
        Candidate::new("-v  verbose", ExtensionValue::String("-v".to_string())),
    ];
    sel.marks = vec!["-v  verbose".to_string()];
    state.select = Some(sel);
    assert_eq!(
        command_summary(&state),
        vec!["$ cp -v /home/u/a.txt /home/u/out".to_string(), String::new(), "Space toggles an option · Enter runs".to_string()]
    );
}

#[test]
fn command_summary_without_skeleton_names_the_op() {
    let mut state = AppState::new("/w".to_string());
    let spec = SelectSpec::command(request("rename", &[], Some("/w/old")), ResolveFill::Path, Vec::new(), None);
    state.push_mode(Mode::Select(spec));
    state.select = Some(SelectState::new(String::new(), true));
    assert_eq!(command_summary(&state), vec!["$ rename /w/old <name>".to_string(), String::new(), "Enter runs".to_string()]);
}

#[test]
fn command_summary_is_empty_outside_a_command_select() {
    let state = AppState::new("/w".to_string());
    assert!(command_summary(&state).is_empty());
}

#[test]
fn screen_bands_split_top_main_and_help() {
    let (top, main, help) = screen_bands(Area { x: 0, y: 0, width: 80, height: 30 }).unwrap();
    assert_eq!(top, Area { x: 0, y: 0, width: 80, height: 7 });
    assert_eq!(main, Area { x: 0, y: 6, width: 80, height: 23 });
    assert_eq!(help, Area { x: 0, y: 29, width: 80, height: 1 });
    let (top, _, _) = screen_bands(Area { x: 0, y: 0, width: 80, height: 24 }).unwrap();
    assert_eq!(top.height, 5);
    assert!(screen_bands(Area { x: 0, y: 0, width: 3, height: 30 }).is_none());
    assert_eq!(top_rows(25), 7);
}

#[test]
fn splits_share_the_dividing_line() {
    let r = Area { x: 0, y: 0, width: 80, height: 20 };
    let (l, rt) = split_h(r, ratio_left(80, 3, 2));
    assert_eq!(l, Area { x: 0, y: 0, width: 48, height: 20 });
    assert_eq!(rt, Area { x: 47, y: 0, width: 33, height: 20 });
    let (t, b) = split_v(r, 3);
    assert_eq!(t, Area { x: 0, y: 0, width: 80, height: 3 });
    assert_eq!(b, Area { x: 0, y: 2, width: 80, height: 18 });
    // A requested width past the edge is held back two cells from it.
    assert_eq!(split_h(r, 200).0.width, 78);
    assert_eq!(inner(r, false), Area { x: 1, y: 1, width: 78, height: 18 });
    assert_eq!(inner(r, true), Area { x: 1, y: 1, width: 78, height: 19 });
}

#[test]
fn help_row_follows_mode_and_focus() {
    let mut state = AppState::new("/".to_string());
    assert!(help_text(&state).starts_with("wasd move"));
    state.focused_panel = "function".to_string();
    assert!(help_text(&state).contains("/ search"));
    state.function.search.matches = vec![(0, 0, 1)];
    assert!(help_text(&state).contains("n/p match"));
    state.function.search.input_active = true;
    assert_eq!(help_text(&state), "type pattern  Enter search  Esc cancel");
    state.push_mode(Mode::Policy(Box::new(Intent::Quit)));
    assert_eq!(help_text(&state), "y/Enter confirm   n/Esc cancel");
}

#[test]
fn confirm_prompt_summarises_the_held_intent() {
    let del = Intent::RunResolver(request("delete", &["/a", "/b"], None));
    assert_eq!(policy_summary(&del), "delete 2 item(s)?");
    let ext = Intent::Extension(ExtensionIntent {
        extension: "archive".to_string(),
        intent: "pack".to_string(),
        data: ExtensionValue::Nil,
    });
    assert_eq!(policy_summary(&ext), "Run archive:pack?");
    assert_eq!(policy_summary(&Intent::Quit), "Confirm operation?");
}

#[test]
fn borders_connect_with_junctions() {
    let left = PanelEdge { area: Area { x: 0, y: 0, width: 5, height: 4 }, focused: true, open_bottom: false, open_left: false };
    let right = PanelEdge { area: Area { x: 4, y: 0, width: 4, height: 4 }, focused: false, open_bottom: false, open_left: false };
    let (mask, focus) = border_mask(0, 0, 8, 4, &vec![left, right]);
    let row = |y: usize| -> String { mask[y].iter().map(|m| glyph(*m)).collect() };
    assert_eq!(row(0), "┌───┬──┐");
    assert_eq!(row(1), "│   │  │");
    assert_eq!(row(3), "└───┴──┘");
    assert!(focus[0][0] && focus[1][4] && !focus[1][7]);
}

#[test]
fn open_panels_leave_out_their_edges() {
    let p = PanelEdge { area: Area { x: 0, y: 0, width: 4, height: 3 }, focused: false, open_bottom: true, open_left: true };
    let (mask, _) = border_mask(0, 0, 4, 3, &vec![p]);
    let row = |y: usize| -> String { mask[y].iter().map(|m| glyph(*m)).collect() };
    assert_eq!(row(0), "───┐");
    assert_eq!(row(2), "   │");
}

#[test]
fn glyphs_of_the_masks() {
    assert_eq!(glyph(15), '┼');
    assert_eq!(glyph(3), '│');
    assert_eq!(glyph(0), ' ');
}

#[test]
fn line_cells_paint_runs_and_matches() {
    let runs = vec![StyleRun { len: 2, fg: (1, 2, 3), bg: None }, StyleRun { len: 3, fg: (4, 5, 6), bg: Some((7, 8, 9)) }];
    let mut search = PanelSearch::default();
    search.matches = vec![(0, 1, 2), (0, 3, 4)];
    search.current = 1;
    let cells = line_cells("hello", &runs, 0, 0, &search);
    let text: String = cells.iter().map(|c| c.0).collect();
    assert_eq!(text, "hello");
    assert_eq!(cells[0].1, Paint::Run { fg: (1, 2, 3), bg: None });
    assert_eq!(cells[1].1, Paint::Match);
    assert_eq!(cells[2].1, Paint::Run { fg: (4, 5, 6), bg: Some((7, 8, 9)) });
    assert_eq!(cells[3].1, Paint::CurrentMatch);
    let scrolled = line_cells("hello", &[], 2, 0, &PanelSearch::default());
    let text: String = scrolled.iter().map(|c| c.0).collect();
    assert_eq!(text, "llo");
    assert!(scrolled.iter().all(|c| c.1 == Paint::Plain));
}

#[test]
fn prop_values_and_names_are_cut_with_an_ellipsis() {
    assert_eq!(prop_value("PATH", "/a/very/long/path", 12), "/a/ve…");
    assert_eq!(prop_value("PATH", "/a", 12), "/a");
    assert_eq!(trunc("a_rather_long_directory"), "a_rather_long…");
    assert_eq!(trunc("short"), "short");
}

#[test]
fn clock_texts() {
    assert_eq!(clock_text(2024, 3, 9, 7, 5, 1, true), "24-03-09 07:05:01");
    assert_eq!(clock_text(2024, 12, 31, 23, 59, 0, false), "12-31 23:59");
}

#[test]
fn navigator_columns_sort_and_place() {
    let names = vec!["zeta".to_string(), ".git".to_string(), "alpha".to_string()];
    let c = nav_column(&names, "zeta", true);
    assert_eq!(c.sibs, vec!["alpha".to_string(), "zeta".to_string()]);
    assert_eq!(c.idx, 1);
    let hidden = nav_column(&names, ".git", false);
    assert_eq!(hidden.sibs, vec![".git".to_string(), "alpha".to_string(), "zeta".to_string()]);
    assert_eq!(hidden.idx, 0);
    let missing = nav_column(&names, "gone", false);
    assert_eq!(missing.idx, 2);
    assert_eq!(missing.sibs[2], "gone");
    let w = nav_window(&c, 3, 1);
    assert_eq!(w, vec![Some("alpha".to_string()), Some("zeta".to_string()), None]);
    assert_eq!(nav_width(&c, 3, 1), 5);
    // Right-aligned: the last columns that fit, with gaps of three.
    assert_eq!(nav_placement(&vec![4, 4, 4], 11), (1, 11));
}

#[test]
fn registry_keeps_the_first_of_an_id() {
    let mut t = ExtensionTable::new();
    assert!(t.register("archive", false));
    assert!(t.register("preview", true));
    assert!(!t.register("archive", true));
    assert_eq!(t.ids, vec!["archive".to_string(), "preview".to_string()]);
    assert_eq!(t.find("preview"), Some(1));
    assert_eq!(t.find("nope"), None);
    assert_eq!(t.provider(), Some(1));
    assert_eq!(ExtensionTable::new().provider(), None);
}

#[test]
fn caret_split_marks_the_character_under_the_caret() {
    assert_eq!(caret_split("héllo", 1), ("h".to_string(), "é".to_string(), "llo".to_string()));
    assert_eq!(caret_split("ab", 2), ("ab".to_string(), " ".to_string(), String::new()));
    assert_eq!(caret_split("ab", 9), ("ab".to_string(), " ".to_string(), String::new()));
}

#[test]
fn select_titles_and_rows() {
    let mut state = AppState::new("/w".to_string());
    state.push_mode(Mode::Select(SelectSpec::file_search()));
    let mut sel = SelectState::new("q".to_string(), true);
    sel.results = vec![
        Candidate::new("one", ExtensionValue::Nil),
        Candidate::new("two", ExtensionValue::Nil),
    ];
    sel.marks = vec!["two".to_string()];
    state.select = Some(sel);
    assert_eq!(input_title(&state), "Search");
    assert_eq!(results_title(&state), "Results (2)");
    let sel = state.select.as_ref().unwrap();
    assert_eq!(candidate_text(sel, 0), " one");
    assert_eq!(candidate_text(sel, 1), "*two");
    state.select.as_mut().unwrap().phase = wasdf::state::SelectPhase::Navigate;
    assert_eq!(results_title(&state), "Results (2) [nav]");

    let mut cmd = AppState::new("/w".to_string());
    cmd.push_mode(Mode::Select(SelectSpec::command(request("copy", &[], None), ResolveFill::Dst, Vec::new(), None)));
    let mut s2 = SelectState::new(String::new(), true);
    s2.results = vec![Candidate::new("-v", ExtensionValue::String("-v".to_string()))];
    cmd.select = Some(s2);
    assert_eq!(input_title(&cmd), "Argument");
    assert_eq!(results_title(&cmd), "Options (1)");
}

#[test]
fn horizontal_scroll_drops_leading_columns() {
    let search = PanelSearch::default();
    let cells = line_cells("hello", &[], 2, 0, &search);
    let text: String = cells.iter().map(|c| c.0).collect();
    assert_eq!(text, "llo");
}

#[test]
fn dot_files_show_only_when_asked() {
    assert!(wasdf::listing::is_shown("a.txt", false));
    assert!(!wasdf::listing::is_shown(".git", false));
    assert!(wasdf::listing::is_shown(".git", true));
    assert!(wasdf::listing::is_shown("", false));
}
