use dif::keymap::{
    footer_hint_git_panel, footer_hint_main, footer_hint_settings, footer_hint_terminal,
    footer_hint_terminal_copy, terminal_close_hint, terminal_modal_interactive_hint,
    KEY_OPEN_GIT_PANEL, KEY_OPEN_SETTINGS, KEY_OPEN_TERMINAL_PRIMARY, KEY_QUIT, KEY_STAGE,
    KEY_TERMINAL_COPY_MODE, KEY_UNDO_MAINLINE,
};

#[test]
fn footer_main_hint_contains_primary_keys() {
    let hint = footer_hint_main();
    assert!(hint.contains(KEY_STAGE));
    assert!(hint.contains(KEY_UNDO_MAINLINE));
    assert!(hint.contains(KEY_OPEN_GIT_PANEL));
    assert!(hint.contains(KEY_OPEN_TERMINAL_PRIMARY));
    assert!(hint.contains(KEY_OPEN_SETTINGS));
    assert!(hint.contains(KEY_QUIT));
}

#[test]
fn terminal_hints_reference_copy_mode_key() {
    let footer = footer_hint_terminal();
    let modal = terminal_modal_interactive_hint();
    assert!(footer.contains(KEY_TERMINAL_COPY_MODE));
    assert!(modal.contains(KEY_TERMINAL_COPY_MODE));
}

#[test]
fn hints_name_their_close_chords() {
    assert!(footer_hint_terminal().contains(terminal_close_hint()));
    assert!(terminal_modal_interactive_hint().contains(terminal_close_hint()));
    assert!(footer_hint_settings().contains("Esc close"));
    assert!(footer_hint_git_panel().contains("commit"));
    assert!(footer_hint_terminal_copy().contains("y copy"));
}
