use arch_sunshine::sunshine_api::{
    credentials_from_password_file, disconnect_urls, resolve_credentials, Attempt, CredentialsSource,
    DisconnectLog,
};
use arch_sunshine::tui::events::{
    build_fast_status, render_nodes_summary, shell_size, submit_pin, pin_not_staged_message, FrameStep,
    LogLine,
};
use arch_sunshine::tui::keys::{handle, KeyAction, KeyCode, KeyInput};
use arch_sunshine::tui::shell::key_to_bytes;
use arch_sunshine::tui::state::{AppState, Health, LogBuffer, LogSource, Modal, StatusSnapshot};
use arch_sunshine::tui::ui::{log_line_tone, log_viewport, padded_pin, pin_dialog_area, stream_title, LogTone};
use arch_sunshine::desktop::control::StreamGeometry;

fn key(code: KeyCode) -> KeyInput {
    KeyInput { code, ctrl: false, alt: false }
}

fn ctrl(c: char) -> KeyInput {
    KeyInput { code: KeyCode::Char(c), ctrl: true, alt: false }
}

fn strings(v: &[&str]) -> Vec<String> {
    v.iter().map(|x| x.to_string()).collect()
}

#[test]
fn tab_cycles_the_logs_and_back_tab_returns() {
    let mut app = AppState::new();
    assert_eq!(app.focused_log, LogSource::Sunshine);
    handle(&mut app, key(KeyCode::Tab));
    assert_eq!(app.focused_log, LogSource::Wrapper);
    handle(&mut app, key(KeyCode::BackTab));
    assert_eq!(app.focused_log, LogSource::Sunshine);
    handle(&mut app, key(KeyCode::BackTab));
    assert_eq!(app.focused_log, LogSource::Pulse);
}

#[test]
fn scrolling_and_following() {
    let mut app = AppState::new();
    handle(&mut app, key(KeyCode::Up));
    assert!(!app.follow_tail);
    assert_eq!(app.log_scroll, 1);
    handle(&mut app, key(KeyCode::PageUp));
    assert_eq!(app.log_scroll, 21);
    handle(&mut app, key(KeyCode::PageDown));
    assert_eq!(app.log_scroll, 1);
    assert!(!app.follow_tail);
    handle(&mut app, key(KeyCode::Down));
    assert_eq!(app.log_scroll, 0);
    assert!(!app.follow_tail);
    handle(&mut app, key(KeyCode::Down));
    assert!(app.follow_tail);
    handle(&mut app, key(KeyCode::Up));
    handle(&mut app, key(KeyCode::Char('F')));
    assert!(app.follow_tail);
    assert_eq!(app.log_scroll, 0);
}

#[test]
fn pairing_dialog_takes_digits_only() {
    let mut app = AppState::new();
    handle(&mut app, key(KeyCode::Char('r')));
    assert_eq!(app.modal, Modal::PairPin);
    for c in ['1', 'x', '2', '3', '4', '5', '6', '7', '8', '9'] {
        handle(&mut app, key(KeyCode::Char(c)));
    }
    assert_eq!(app.pin_input, "12345678");
    handle(&mut app, key(KeyCode::Backspace));
    assert_eq!(app.pin_input, "1234567");
    assert!(matches!(handle(&mut app, key(KeyCode::Enter)), KeyAction::SubmitPin));
    app.pin_submitted(Err("PIN was not staged (exit 1)".to_string()));
    assert_eq!(app.modal, Modal::PairPin);
    assert_eq!(app.pin_message, "PIN was not staged (exit 1)");
    app.pin_submitted(Ok(()));
    assert_eq!(app.modal, Modal::Closed);
    assert!(app.pin_input.is_empty() && app.pin_message.is_empty());
    handle(&mut app, key(KeyCode::Char('r')));
    handle(&mut app, key(KeyCode::Char('4')));
    handle(&mut app, key(KeyCode::Esc));
    assert_eq!(app.modal, Modal::Closed);
    assert!(app.pin_input.is_empty());
}

#[test]
fn quitting_and_the_shell() {
    let mut app = AppState::new();
    handle(&mut app, key(KeyCode::Char('s')));
    assert!(app.should_shell);
    assert_eq!(app.next_frame(false), FrameStep::SpawnShell);
    assert!(!app.should_shell);
    app.shell_started();
    assert_eq!(app.modal, Modal::Shell);
    assert!(matches!(handle(&mut app, key(KeyCode::Char('q'))), KeyAction::SendToShell));
    assert!(!app.should_quit);
    assert!(!app.shell_checked(true));
    assert!(app.shell_checked(false));
    assert_eq!(app.modal, Modal::Closed);
    handle(&mut app, ctrl('c'));
    assert!(app.should_quit);
    assert_eq!(app.next_frame(false), FrameStep::Quit);
    let mut shell = AppState::new();
    shell.shell_started();
    assert!(matches!(handle(&mut shell, key(KeyCode::F(10))), KeyAction::CloseShell));
    assert_eq!(shell.modal, Modal::Closed);
    assert_eq!(shell_size(None), (24, 80));
    assert_eq!(shell_size(Some((0, 120))), (1, 120));
}

#[test]
fn keys_for_the_shell() {
    assert_eq!(key_to_bytes(key(KeyCode::Char('a'))), b"a".to_vec());
    assert_eq!(key_to_bytes(key(KeyCode::Char('é'))), "é".as_bytes().to_vec());
    assert_eq!(key_to_bytes(ctrl('c')), vec![3]);
    assert_eq!(key_to_bytes(ctrl('C')), vec![3]);
    assert_eq!(key_to_bytes(ctrl(' ')), vec![0]);
    assert_eq!(key_to_bytes(ctrl('\\')), vec![0x1c]);
    assert_eq!(key_to_bytes(ctrl('_')), vec![0x1f]);
    assert_eq!(key_to_bytes(ctrl('1')), vec![b'1']);
    assert_eq!(key_to_bytes(KeyInput { code: KeyCode::Char('x'), ctrl: false, alt: true }), vec![0x1b, b'x']);
    assert_eq!(key_to_bytes(key(KeyCode::Enter)), vec![b'\r']);
    assert_eq!(key_to_bytes(key(KeyCode::BackTab)), b"\x1b[Z".to_vec());
    assert_eq!(key_to_bytes(key(KeyCode::Up)), b"\x1b[A".to_vec());
    assert_eq!(key_to_bytes(key(KeyCode::PageDown)), b"\x1b[6~".to_vec());
    assert_eq!(key_to_bytes(key(KeyCode::F(1))), b"\x1bOP".to_vec());
    assert_eq!(key_to_bytes(key(KeyCode::F(12))), b"\x1b[24~".to_vec());
    assert_eq!(key_to_bytes(key(KeyCode::F(13))), Vec::<u8>::new());
}

#[test]
fn log_buffers_keep_the_newest_lines() {
    let mut b = LogBuffer::new();
    for i in 0..2005 {
        b.push(format!("line {i}"), i % 2 == 0);
    }
    assert_eq!(b.lines().len(), 2000);
    assert_eq!(b.lines()[0], "line 5");
    assert_eq!(b.lines()[1999], "line 2004");
    assert_eq!(b.unread, 1002);
    b.clear_unread();
    assert_eq!(b.unread, 0);
}

#[test]
fn log_lines_reach_their_buffer() {
    let mut app = AppState::new();
    app.receive_log(LogLine { source: LogSource::KWin, line: "hello".to_string() });
    app.receive_log(LogLine { source: LogSource::Sunshine, line: "seen".to_string() });
    assert_eq!(app.logs[2].lines(), &["hello".to_string()][..]);
    assert_eq!(app.logs[2].unread, 1);
    assert_eq!(app.logs[0].unread, 0);
    app.focus(LogSource::KWin);
    assert_eq!(app.logs[2].unread, 0);
    assert_eq!(app.focused_buffer().unwrap().lines().len(), 1);
}

#[test]
fn viewport_fits_wrapped_lines() {
    let lines = strings(&["a", "bbbbbbbbbb", "cc", "", "ddddd"]);
    assert_eq!(log_viewport(&lines, true, 0, 5, 4), Some((2, 5)));
    assert_eq!(log_viewport(&lines, true, 0, 5, 3), Some((2, 5)));
    assert_eq!(log_viewport(&lines, true, 0, 5, 2), Some((3, 5)));
    assert_eq!(log_viewport(&lines, false, 2, 5, 10), Some((0, 3)));
    assert_eq!(log_viewport(&lines, false, 9, 5, 10), Some((0, 0)));
    assert_eq!(log_viewport(&lines, true, 0, 0, 10), None);
    assert_eq!(log_viewport(&[], true, 0, 5, 10), None);
    assert_eq!(log_viewport(&lines, true, 0, 5, 1), Some((4, 5)));
    assert_eq!(log_viewport(&lines, true, 0, 5, 5), Some((1, 5)));
    assert_eq!(log_viewport(&lines, true, 0, 5, 6), Some((0, 5)));
}

#[test]
fn log_tones() {
    assert_eq!(log_line_tone("ERROR: bad"), LogTone::Error);
    assert_eq!(log_line_tone("Fatal thing"), LogTone::Error);
    assert_eq!(log_line_tone("[warn] x"), LogTone::Warn);
    assert_eq!(log_line_tone("Info: y"), LogTone::Info);
    assert_eq!(log_line_tone("plain"), LogTone::Plain);
    assert_eq!(log_line_tone("warning and error"), LogTone::Error);
}

#[test]
fn status_texts() {
    let g = StreamGeometry { width: 2560, height: 1440, fps: "120".to_string(), scale: "1.5".to_string() };
    let st = build_fast_status(Health::Up, Health::Down, Health::Unknown, true, false, true, "none".to_string(), &g);
    assert_eq!((st.logical_width, st.logical_height), (1707, 960));
    assert_eq!(stream_title(&st), " 2560×1440@120 scale 1.5 · logical 1707×960 ");
    let mut app = AppState::new();
    app.apply_slow_status("arch_sunshine_audio".to_string(), vec![("h264".to_string(), None)]);
    app.apply_fast_status(st);
    assert_eq!(app.status.audio_sink, "arch_sunshine_audio");
    assert_eq!(app.status.encoder_summary.len(), 1);
    assert_eq!(app.status.kwin, Health::Up);
    let fresh = StatusSnapshot::default();
    assert_eq!(fresh.audio_sink, "?");
    assert_eq!(render_nodes_summary(&strings(&["renderD129", "card1", "renderD128"])), "/dev/dri/renderD128 /dev/dri/renderD129");
    assert_eq!(render_nodes_summary(&strings(&["card0"])), "none");
}

#[test]
fn pin_dialog_texts() {
    assert_eq!(padded_pin("12"), "12      ");
    assert_eq!(padded_pin("12345678"), "12345678");
    assert_eq!(pin_dialog_area((0, 0, 100, 30)), (26, 11, 48, 7));
    assert_eq!(pin_dialog_area((0, 0, 20, 5)), (2, 0, 16, 7));
    assert_eq!(pin_dialog_area((0, 0, 3, 3)), (1, 0, 0, 7));
    assert_eq!(submit_pin(" 1234 ").ok().unwrap(), strings(&["/usr/local/bin/arch-sunshine-server", "pin", "1234"]));
    assert_eq!(submit_pin("  ").err().unwrap(), "PIN is empty");
    assert_eq!(pin_not_staged_message("exit status: 2"), "PIN was not staged (exit exit status: 2)");
}

#[test]
fn credentials_and_disconnect_attempts() {
    match resolve_credentials(Some("sunshine"), Some("pw")) {
        CredentialsSource::Given(c) => assert_eq!((c.user.as_str(), c.password.as_str()), ("sunshine", "pw")),
        _ => panic!("expected given credentials"),
    }
    assert!(matches!(resolve_credentials(Some(""), None), CredentialsSource::PasswordFile));
    assert!(matches!(resolve_credentials(Some("u"), Some("")), CredentialsSource::Refused));
    let c = credentials_from_password_file("sunshine", " secret\n").unwrap();
    assert_eq!(c.password, "secret");
    assert!(credentials_from_password_file("sunshine", " \n").is_none());
    let urls = disconnect_urls();
    assert_eq!(urls.len(), 3);
    assert_eq!(urls[1], "http://127.0.0.1:47989/api/apps/close");
    let mut log = DisconnectLog::new();
    log.record(&urls[0], &Attempt::Failed { error: "connection refused".to_string() });
    assert!(!log.accepted);
    log.record(&urls[1], &Attempt::Answered { code: 401, status: "401 Unauthorized".to_string() });
    assert!(!log.accepted);
    assert_eq!(
        log.failure_message(),
        "Sunshine disconnect API did not accept the close request:\nhttps://127.0.0.1:47990/api/apps/close rc=err response=connection refused\nhttp://127.0.0.1:47989/api/apps/close rc=0 response=401 Unauthorized"
    );
    log.record(&urls[2], &Attempt::Answered { code: 200, status: "200 OK".to_string() });
    assert!(log.accepted);
    assert_eq!(log.lines.len(), 3);
}
