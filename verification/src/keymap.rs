//! The key bindings of the interface and the footer hints that
//! describe them.

use vstd::prelude::*;

verus! {

pub const KEY_QUIT: char = 'q';

pub const KEY_STAGE: char = 's';

pub const KEY_UNSTAGE: char = 'u';

pub const KEY_UNDO_MAINLINE: char = 'x';

pub const KEY_CYCLE_DIFF_VIEW: char = 'v';

pub const KEY_TOGGLE_SIDEBAR: char = 'b';

pub const KEY_SIDEBAR_NARROW: char = '[';

pub const KEY_SIDEBAR_WIDE: char = ']';

pub const KEY_OPEN_SETTINGS: char = 'o';

pub const KEY_OPEN_GIT_PANEL: char = 'g';

pub const KEY_OPEN_COMMIT: char = 'c';

pub const KEY_OPEN_TERMINAL_PRIMARY: char = ':';

pub const KEY_OPEN_TERMINAL_ALT: char = '!';

pub const KEY_REFRESH: char = 'r';

pub const KEY_GIT_CREATE_BRANCH: char = 'a';

pub const KEY_GIT_SWITCH_BRANCH: char = 's';

pub const KEY_GIT_DELETE_BRANCH: char = 'd';

pub const KEY_GIT_COMMIT: char = KEY_OPEN_COMMIT;

pub const KEY_TERMINAL_COPY_MODE: char = 'c';

pub const KEY_TERMINAL_INTERACTIVE_MODE: char = 'i';

pub const KEY_TERMINAL_SELECTION_ANCHOR: char = 'v';

pub const KEY_TERMINAL_YANK: char = 'y';

pub const KEY_TERMINAL_SEARCH: char = '/';

pub const KEY_TERMINAL_SEARCH_NEXT: char = 'n';

pub const KEY_SETTINGS_CLOSE: char = KEY_OPEN_SETTINGS;

/// The chords that close the terminal from any of its modes.
pub fn terminal_close_hint() -> (r: &'static str)
    ensures
        r@ == "Ctrl+], Ctrl+g, or Ctrl+q"@,
{
    "Ctrl+], Ctrl+g, or Ctrl+q"
}

/// The footer hint while an undo awaits confirmation.
pub fn footer_hint_pending_undo() -> (r: &'static str)
    ensures
        r@ == "confirm undo: y apply to mainline, n/Esc cancel"@,
{
    "confirm undo: y apply to mainline, n/Esc cancel"
}

/// The footer hint while the terminal search prompt is open.
pub fn footer_hint_terminal_search() -> (r: &'static str)
    ensures
        r@ == "terminal search: type query, Enter find, Esc cancel"@,
{
    "terminal search: type query, Enter find, Esc cancel"
}

/// The footer hint while the branch panel is open.
pub fn footer_hint_git_panel() -> (r: String)
    ensures
        r@ == "git: j/k move  Enter/s switch  a new branch  d delete  c commit  Esc close"@,
{
    "git: j/k move  Enter/s switch  a new branch  d delete  c commit  Esc close".to_owned()
}

/// The footer hint while the terminal is in copy mode.
pub fn footer_hint_terminal_copy() -> (r: &'static str)
    ensures
        r@ == "copy mode: move(hjkl/arrows)  v mark  y copy  / search  n next  i interactive"@,
{
    "copy mode: move(hjkl/arrows)  v mark  y copy  / search  n next  i interactive"
}

/// The footer hint while the terminal is interactive.
pub fn footer_hint_terminal() -> (r: String)
    ensures
        r@ == "terminal: all keys -> shell, Esc close, Alt+c copy mode, Ctrl+], Ctrl+g, or Ctrl+q close"@,
{
    "terminal: all keys -> shell, Esc close, Alt+c copy mode, Ctrl+], Ctrl+g, or Ctrl+q close".to_owned()
}

/// The footer hint while the settings panel is open.
pub fn footer_hint_settings() -> (r: &'static str)
    ensures
        r@ == "settings: j/k select, h/l change, Esc close"@,
{
    "settings: j/k select, h/l change, Esc close"
}

/// The footer hint of the main screen.
pub fn footer_hint_main() -> (r: String)
    ensures
        r@ == "Tab list  Left/Right pane  Up/Down move-or-scroll  s stage  u unstage  x undo->mainline  g branches  c commit  : terminal  o settings  q quit"@,
{
    "Tab list  Left/Right pane  Up/Down move-or-scroll  s stage  u unstage  x undo->mainline  g branches  c commit  : terminal  o settings  q quit".to_owned()
}

/// The hint shown inside the terminal modal while interactive.
pub fn terminal_modal_interactive_hint() -> (r: String)
    ensures
        r@ == "interactive shell. Esc closes. Alt+c enters copy mode. Ctrl+], Ctrl+g, or Ctrl+q also close."@,
{
    "interactive shell. Esc closes. Alt+c enters copy mode. Ctrl+], Ctrl+g, or Ctrl+q also close.".to_owned()
}

/// The hint shown inside the terminal modal in copy mode.
pub fn terminal_modal_copy_hint() -> (r: &'static str)
    ensures
        r@ == "copy: hjkl/arrows move  v mark  y yank  / search  n next  i interactive"@,
{
    "copy: hjkl/arrows move  v mark  y yank  / search  n next  i interactive"
}

} // verus!
