use dif::copymode::{CopyModeController, SearchOutcome, YankOutcome};

fn rows(texts: &[&str]) -> Vec<String> {
    texts.iter().map(|t| t.to_string()).collect()
}

#[test]
fn yank_text_spans_rows_in_row_major_order() {
    let snapshot = rows(&["abcdef", "ghijkl"]);
    let text = dif::copymode::selection_text(&snapshot, (0, 2), (1, 3));
    assert_eq!(text, "cdef\nghij");
}

#[test]
fn yank_text_is_order_independent() {
    let snapshot = rows(&["abcdef", "ghijkl"]);
    let forward = dif::copymode::selection_text(&snapshot, (0, 2), (1, 3));
    let backward = dif::copymode::selection_text(&snapshot, (1, 3), (0, 2));
    assert_eq!(forward, backward);
    assert_eq!(forward, "cdef\nghij");
}

#[test]
fn yank_clamps_columns_to_row_length() {
    let snapshot = rows(&["ab", "xyz"]);
    let text = dif::copymode::selection_text(&snapshot, (0, 5), (1, 9));
    assert_eq!(text, "\nxyz");
}

#[test]
fn yank_without_anchor_changes_nothing() {
    let mut controller = CopyModeController::new();
    controller.set_viewport(2, 6);
    controller.enter();

    let snapshot = rows(&["abcdef", "ghijkl"]);
    let outcome = controller.yank_selection(&snapshot);
    assert!(matches!(outcome, YankOutcome::NoAnchor));
    assert!(controller.anchor.is_none());
    assert_eq!(controller.cursor_row, 1);
    assert_eq!(controller.cursor_col, 0);
}

#[test]
fn entering_copy_mode_places_cursor_on_last_row() {
    let mut controller = CopyModeController::new();
    controller.set_viewport(5, 20);
    controller.search_append('x');
    controller.enter();

    assert!(controller.active);
    assert_eq!(controller.cursor_row, 4);
    assert_eq!(controller.cursor_col, 0);
    assert!(controller.anchor.is_none());
    assert!(controller.search_query.is_empty());
}

#[test]
fn toggling_the_anchor_sets_and_clears_it() {
    let mut controller = CopyModeController::new();
    controller.set_viewport(3, 10);
    controller.enter();

    assert!(controller.toggle_anchor());
    assert_eq!(controller.anchor, Some((2, 0)));
    assert!(!controller.toggle_anchor());
    assert!(controller.anchor.is_none());
}

#[test]
fn search_finds_match_after_cursor() {
    let mut controller = CopyModeController::new();
    controller.set_viewport(2, 10);
    controller.enter();
    controller.cursor_row = 0;
    controller.cursor_col = 0;
    controller.open_search();
    controller.search_append('c');
    controller.search_append('d');

    let snapshot = rows(&["abcdef", "ghijkl"]);
    let outcome = controller.search_next(&snapshot);
    assert!(matches!(outcome, SearchOutcome::Found(0, 2)));
    assert_eq!(controller.cursor_row, 0);
    assert_eq!(controller.cursor_col, 2);
    assert_eq!(controller.last_search, "cd");
    assert!(!controller.search_open);
}

#[test]
fn search_wraps_to_an_earlier_occurrence() {
    let mut controller = CopyModeController::new();
    controller.set_viewport(3, 10);
    controller.enter();

    let snapshot = rows(&["top echo", "middle", "echo done"]);
    controller.cursor_row = 2;
    controller.cursor_col = 0;
    controller.open_search();
    for c in "echo".chars() {
        controller.search_append(c);
    }

    let outcome = controller.search_next(&snapshot);
    assert!(matches!(outcome, SearchOutcome::Found(0, 4)));
    assert_eq!(controller.cursor_row, 0);
    assert_eq!(controller.cursor_col, 4);
}

#[test]
fn empty_search_query_warns_and_keeps_cursor() {
    let mut controller = CopyModeController::new();
    controller.set_viewport(2, 10);
    controller.enter();
    controller.cursor_row = 1;
    controller.cursor_col = 3;
    controller.open_search();
    controller.search_append(' ');

    let snapshot = rows(&["abc"]);
    let outcome = controller.search_next(&snapshot);
    assert!(matches!(outcome, SearchOutcome::EmptyQuery));
    assert_eq!(controller.cursor_row, 1);
    assert_eq!(controller.cursor_col, 3);
    assert!(!controller.search_open);
}

#[test]
fn missing_match_leaves_cursor_alone() {
    let mut controller = CopyModeController::new();
    controller.set_viewport(2, 10);
    controller.enter();
    controller.cursor_row = 0;
    controller.cursor_col = 1;
    controller.open_search();
    controller.search_append('z');
    controller.search_append('z');

    let snapshot = rows(&["abc", "def"]);
    let outcome = controller.search_next(&snapshot);
    assert!(matches!(outcome, SearchOutcome::NotFound));
    assert_eq!(controller.cursor_row, 0);
    assert_eq!(controller.cursor_col, 1);
}

#[test]
fn search_prompt_prefills_last_query() {
    let mut controller = CopyModeController::new();
    controller.set_viewport(1, 10);
    controller.enter();
    controller.open_search();
    controller.search_append('a');
    controller.search_append('b');

    let snapshot = rows(&["xxab"]);
    controller.cursor_col = 0;
    let outcome = controller.search_next(&snapshot);
    assert!(matches!(outcome, SearchOutcome::Found(0, 2)));

    controller.open_search();
    assert!(controller.search_open);
    assert_eq!(controller.search_query, "ab");

    controller.search_backspace();
    assert_eq!(controller.search_query, "a");
    controller.cancel_search();
    assert!(controller.search_query.is_empty());
    assert!(!controller.search_open);
}

#[test]
fn exit_clears_selection_state() {
    let mut controller = CopyModeController::new();
    controller.set_viewport(4, 8);
    controller.enter();
    controller.toggle_anchor();
    controller.open_search();
    controller.search_append('q');

    controller.exit();
    assert!(!controller.active);
    assert!(!controller.search_open);
    assert!(controller.anchor.is_none());
    assert!(controller.search_query.is_empty());
}
