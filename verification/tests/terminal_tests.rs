use dif::copymode::CopyModeController;
use dif::keys::{KeyCode, KeyModifiers};
use dif::shell::{
    default_shell_candidates, fallback_shell_program, resolve_shell_program, shell_args_for,
    shell_args_for_windows, Platform,
};
use dif::terminal::TerminalSession;

fn start_shell() -> (TerminalSession, dif::terminal::PtyReader) {
    let args: Vec<String> = Vec::new();
    TerminalSession::start("/bin/sh", &args, "/tmp", 24, 80)
        .expect("spawning a shell on a pty should succeed")
}

#[test]
fn session_end_to_end_produces_output() {
    let (mut session, mut reader) = start_shell();

    session
        .send_text("pwd\nexit\n")
        .expect("writing to the shell should succeed");

    while reader.run_step() {}

    let mut pumped = false;
    while session.pump_output() {
        pumped = true;
    }
    assert!(pumped, "the shell should have produced output");

    let rows = session.plain_rows();
    assert!(rows.iter().any(|row| !row.is_empty()));
}

#[test]
fn pump_returns_false_on_an_empty_channel() {
    let (mut session, _reader) = start_shell();
    let rows_before = session.plain_rows();
    assert!(!session.pump_output());
    assert_eq!(rows_before, session.plain_rows());
}

#[test]
fn exit_is_reported_exactly_once() {
    let (mut session, mut reader) = start_shell();

    assert!(!session.is_exited());

    session
        .send_text("exit\n")
        .expect("writing to the shell should succeed");
    while reader.run_step() {}

    let mut message = None;
    for _ in 0..1_000_000 {
        match session.poll_exit_message() {
            Ok(Some(m)) => {
                message = Some(m);
                break;
            }
            Ok(None) => continue,
            Err(e) => panic!("polling failed: {e}"),
        }
    }
    assert!(message.is_some(), "the exit should eventually be reported");
    assert!(session.is_exited());

    for _ in 0..3 {
        assert_eq!(session.poll_exit_message().expect("poll should work"), None);
        assert!(session.is_exited());
    }
}

#[test]
fn start_refuses_zero_dimensions() {
    let args: Vec<String> = Vec::new();
    assert!(TerminalSession::start("/bin/sh", &args, "/tmp", 0, 80).is_err());
    assert!(TerminalSession::start("/bin/sh", &args, "/tmp", 24, 0).is_err());
}

#[test]
fn resize_ignores_zero_dimensions() {
    let (mut session, _reader) = start_shell();
    session.resize(0, 120).expect("zero rows must be a no-op");
    session.resize(120, 0).expect("zero cols must be a no-op");
    session.resize(24, 80).expect("unchanged size must be a no-op");
    session.resize(30, 100).expect("a real resize should succeed");
    session.kill();
}

#[test]
fn send_key_swallows_unmapped_chords() {
    let (mut session, _reader) = start_shell();
    let ctrl = KeyModifiers {
        ctrl: true,
        alt: false,
        shift: false,
    };
    session
        .send_key(KeyCode::Char('~'), ctrl)
        .expect("a swallowed key must not fail");
    session
        .send_key(KeyCode::Unsupported, ctrl)
        .expect("an unmapped key must not fail");
    session.kill();
}

#[test]
fn scrollback_starts_at_the_live_edge() {
    let (mut session, _reader) = start_shell();
    assert_eq!(session.scrollback(), 0);
    session.set_scrollback(50);
    assert_eq!(session.scrollback(), 0, "nothing is buffered yet");
    session.kill();
}

fn fill_history(session: &mut TerminalSession, reader: &mut dif::terminal::PtyReader) {
    session
        .send_text("i=0; while [ $i -lt 200 ]; do echo line$i; i=$((i+1)); done; exit\n")
        .expect("writing to the shell should succeed");
    while reader.run_step() {}
    while session.pump_output() {}
}

#[test]
fn scrollback_clamps_to_buffered_history() {
    let (mut session, mut reader) = start_shell();
    fill_history(&mut session, &mut reader);

    session.set_scrollback(5);
    assert_eq!(session.scrollback(), 5);

    session.set_scrollback(1_000_000);
    let clamped = session.scrollback();
    assert!(clamped < 1_000_000, "the offset must clamp to the buffer");
    assert!(clamped >= 5);

    session.set_scrollback(5);
    session
        .resize(30, 100)
        .expect("a real resize should succeed");
    assert_eq!(session.scrollback(), 5, "resizing must not move the view");

    let rows = session.plain_rows();
    assert!(rows.iter().any(|row| row.contains("line")));
}

#[test]
fn copy_cursor_up_past_top_scrolls_back() {
    let (mut session, mut reader) = start_shell();
    fill_history(&mut session, &mut reader);

    let mut copy = CopyModeController::new();
    copy.set_viewport(24, 80);
    copy.enter();
    assert_eq!(copy.cursor_row, 23);

    copy.move_cursor(&mut session, -30, 0);
    assert_eq!(copy.cursor_row, 0);
    assert_eq!(session.scrollback(), 7);

    copy.move_cursor(&mut session, 40, 0);
    assert_eq!(copy.cursor_row, 23);
    assert_eq!(session.scrollback(), 0);
}

#[test]
fn resolves_environment_shell_when_it_exists() {
    let exists = vec![true, true];
    let picked = resolve_shell_program(Platform::Unix, Some("/opt/myshell"), true, &exists);
    assert_eq!(picked, "/opt/myshell");
}

#[test]
fn falls_back_through_candidates_to_default() {
    let candidates = default_shell_candidates(Platform::Unix);
    assert_eq!(candidates, vec!["/bin/zsh".to_string(), "/bin/bash".to_string()]);

    let picked = resolve_shell_program(Platform::Unix, None, false, &vec![false, true]);
    assert_eq!(picked, "/bin/bash");

    let picked = resolve_shell_program(Platform::Unix, Some(""), true, &vec![true, true]);
    assert_eq!(picked, "/bin/zsh");

    let picked = resolve_shell_program(Platform::Unix, None, false, &vec![false, false]);
    assert_eq!(picked, fallback_shell_program(Platform::Unix));
    assert_eq!(picked, "/bin/sh");
}

#[test]
fn shell_arguments_follow_the_program_family() {
    assert_eq!(shell_args_for(Platform::Unix, "/bin/bash"), vec!["-i".to_string()]);
    assert_eq!(
        shell_args_for_windows("C:/Tools/PowerShell.EXE"),
        vec!["-NoLogo".to_string(), "-NoExit".to_string()]
    );
    assert_eq!(
        shell_args_for_windows("C:/Windows/System32/cmd.exe"),
        vec!["/K".to_string()]
    );
    assert!(shell_args_for_windows("C:/other/shell.exe").is_empty());
}
