use dif::util::{
    byte_index_for_char_offset, clamp_text_cursor, ensure_visible, find_query_in_line,
    move_text_cursor_down, move_text_cursor_end, move_text_cursor_home, move_text_cursor_up,
    next_text_cursor, order_positions, prev_text_cursor, shift_and_clamp_u16,
};

#[test]
fn ensure_visible_adjusts_scroll_for_selection() {
    let mut scroll = 0;
    ensure_visible(Some(5), 10, 3, &mut scroll);
    assert_eq!(scroll, 3);

    ensure_visible(Some(2), 10, 3, &mut scroll);
    assert_eq!(scroll, 2);
}

#[test]
fn ensure_visible_resets_for_empty_lists() {
    let mut scroll = 7;
    ensure_visible(Some(1), 0, 3, &mut scroll);
    assert_eq!(scroll, 0);

    let mut scroll = 7;
    ensure_visible(None, 10, 0, &mut scroll);
    assert_eq!(scroll, 0);
}

#[test]
fn shift_and_clamp_handles_bounds() {
    assert_eq!(shift_and_clamp_u16(10, 2, 4, 8, 20), 18);
    assert_eq!(shift_and_clamp_u16(10, 5, 4, 8, 20), 20);
    assert_eq!(shift_and_clamp_u16(10, -5, 4, 8, 20), 8);
}

#[test]
fn finds_query_from_start_column() {
    assert_eq!(find_query_in_line("abcdef", "cd", 0), Some(2));
    assert_eq!(find_query_in_line("abcdef", "cd", 3), None);
    assert_eq!(find_query_in_line("abcdef", "", 0), None);
}

#[test]
fn orders_positions_row_major() {
    assert_eq!(order_positions((0, 2), (1, 3)), ((0, 2), (1, 3)));
    assert_eq!(order_positions((1, 3), (0, 2)), ((0, 2), (1, 3)));
    assert_eq!(order_positions((2, 5), (2, 1)), ((2, 1), (2, 5)));
}

#[test]
fn text_cursor_navigation_respects_char_boundaries() {
    let text = "a\u{e9}\u{1f642}b";

    assert_eq!(clamp_text_cursor(text, 2), 1);
    assert_eq!(next_text_cursor(text, 0), 1);
    assert_eq!(next_text_cursor(text, 1), 3);
    assert_eq!(next_text_cursor(text, 3), 7);
    assert_eq!(prev_text_cursor(text, 7), 3);
    assert_eq!(prev_text_cursor(text, 3), 1);
}

#[test]
fn text_cursor_moves_between_lines_with_column_preference() {
    let text = "ab\n12345\nxy";
    let line_two_col_four = 3 + "1234".len();

    assert_eq!(move_text_cursor_up(text, line_two_col_four), 2);
    assert_eq!(move_text_cursor_down(text, 2), 5);
    assert_eq!(move_text_cursor_down(text, text.len()), text.len());
}

#[test]
fn text_cursor_home_and_end_are_line_local() {
    let text = "first\nsecond\nthird";
    let in_second = 6 + 3;

    assert_eq!(move_text_cursor_home(text, in_second), 6);
    assert_eq!(move_text_cursor_end(text, in_second), 12);
}

#[test]
fn byte_index_walks_multibyte_text() {
    let text = "a\u{e9}b";
    assert_eq!(byte_index_for_char_offset(text, 0), 0);
    assert_eq!(byte_index_for_char_offset(text, 1), 1);
    assert_eq!(byte_index_for_char_offset(text, 2), 3);
    assert_eq!(byte_index_for_char_offset(text, 9), 4);
}
