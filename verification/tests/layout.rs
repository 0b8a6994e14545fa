use wasdf::layout::{content_width, fit, follow_cursor, list_geometry, title, ScrollMemory, UiManager, NOTICE_TTL_MS};
use wasdf::reducer::Notice;
use wasdf::state::{Entry, ListLayout, PanelSearch};

fn entries(n: usize, name_len: usize) -> Vec<Entry> {
    (0..n)
        .map(|i| Entry {
            path: format!("/d/{i}"),
            name: "x".repeat(name_len),
            is_dir: false,
            is_symlink: false,
            size: 0,
            mode: 0,
            uid: 0,
            gid: 0,
            modified: None,
            created: None,
            accessed: None,
            symlink_target: None,
        })
        .collect()
}

#[test]
fn title_is_the_file_name_with_match_position() {
    let mut search = PanelSearch::default();
    assert_eq!(title(Some("/a/b/main.rs"), &search), "main.rs");
    search.matches = vec![(0, 0, 1), (2, 0, 1)];
    search.current = 1;
    assert_eq!(title(Some("/a/b/main.rs"), &search), "main.rs  [2/2]");
    assert_eq!(title(None, &PanelSearch::default()), "content");
}

#[test]
fn content_width_is_the_longest_line() {
    assert_eq!(content_width(&["ab".into(), "abcd".into(), "a".into()]), 4);
    assert_eq!(content_width(&[]), 0);
}

#[test]
fn rows_geometry_is_one_full_width_column() {
    let (cols, rows, widths) = list_geometry(&entries(10, 4), ListLayout::Rows, 80);
    assert_eq!((cols, rows), (1, 10));
    assert_eq!(widths, vec![80]);
}

#[test]
fn columns_is_ls_column_major_and_fits_width() {
    let (cols, rows, widths) = list_geometry(&entries(10, 4), ListLayout::Columns, 40);
    assert!(cols > 1, "should pack multiple columns into width 40, got {cols}");
    assert_eq!(rows, 10_usize.div_ceil(cols), "column-major rows");
    let total: usize = widths.iter().sum::<usize>() + 2 * (cols - 1);
    assert!(total <= 40, "packed columns fit the width: {total} <= 40");
}

#[test]
fn columns_widths_are_per_column() {
    let mut es = entries(4, 0);
    for (e, l) in es.iter_mut().zip([2usize, 2, 20, 2]) {
        e.name = "x".repeat(l);
    }
    let (cols, _rows, widths) = list_geometry(&es, ListLayout::Columns, 40);
    if cols >= 2 {
        let max = widths.iter().max().unwrap();
        let min = widths.iter().min().unwrap();
        assert_ne!(max, min, "columns are sized to their own entries: {widths:?}");
    }
}

#[test]
fn grid_is_square_ish_and_fits() {
    let (cols, rows, widths) = list_geometry(&entries(16, 4), ListLayout::Grid, 80);
    assert!(cols >= 1 && cols <= 80 / 10, "grid cols clamped to fit");
    assert!(cols * rows >= 16, "grid covers all entries");
    assert!(widths.iter().all(|&w| w == widths[0]), "grid cells are uniform");
    assert_eq!((cols, rows, widths[0]), (4, 4, 20));
}

#[test]
fn tiny_width_degrades_to_single_column() {
    let (cols, _rows, _w) = list_geometry(&entries(10, 30), ListLayout::Columns, 8);
    assert_eq!(cols, 1, "no room for multiple columns");
}

#[test]
fn empty_list_geometry_is_one_empty_column() {
    assert_eq!(list_geometry(&Vec::new(), ListLayout::Grid, 0), (1, 0, vec![1]));
}

#[test]
fn window_holds_until_the_cursor_leaves_it() {
    for cursor in 0..5 {
        assert_eq!(follow_cursor(0, cursor, 5, 100), 0, "cursor {cursor} stays in window");
    }
    assert_eq!(follow_cursor(0, 5, 5, 100), 1);
    assert_eq!(follow_cursor(10, 12, 5, 100), 10);
    assert_eq!(follow_cursor(10, 9, 5, 100), 9);
}

#[test]
fn offset_never_passes_the_last_page() {
    assert_eq!(follow_cursor(5, 9, 5, 10), 5);
    assert_eq!(follow_cursor(999, 9, 5, 10), 5);
}

#[test]
fn content_that_fits_never_scrolls() {
    assert_eq!(follow_cursor(0, 4, 10, 5), 0);
    assert_eq!(follow_cursor(3, 4, 10, 5), 0, "viewport >= total pins to top");
}

#[test]
fn empty_or_zero_viewport_is_offset_zero() {
    assert_eq!(follow_cursor(7, 0, 0, 10), 0);
    assert_eq!(follow_cursor(7, 0, 5, 0), 0);
}

#[test]
fn fit_cuts_or_pads_to_the_width() {
    assert_eq!(fit("abcdef", 3), "abc");
    assert_eq!(fit("ab", 4), "ab  ");
}

#[test]
fn scroll_memory_bounds_reset() {
    let mut m = ScrollMemory::new();
    m.function_max = 3;
    m.function_hmax = 4;
    m.reset_function_bounds();
    assert_eq!((m.function_max(), m.function_hmax()), (usize::MAX, usize::MAX));
    assert_eq!((m.list_geom().cols, m.list_geom().rows), (1, 0));
}

#[test]
fn notices_expire_after_their_time_to_live() {
    let mut ui = UiManager::new();
    assert!(ui.live_notice(0).is_none());
    ui.notify(Notice::error("boom"), 1000);
    assert_eq!(ui.live_notice(1000 + NOTICE_TTL_MS - 1).map(|n| n.text.clone()), Some("boom".to_string()));
    assert!(ui.live_notice(1000 + NOTICE_TTL_MS).is_none());
}
