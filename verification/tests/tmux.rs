use bytes::Bytes;
use termstage::backend::{BackendError, BackendScrollDirection, BackendSessionRef};
use termstage::protocol::{SessionName, TerminalSize};
use termstage::tmux_backend::{
    captured_screen, ensure_success, input_text, parse_attached, parse_metadata,
    parse_reference, parse_session_info, parse_session_list, TmuxOutput, TmuxSessionCommand,
};
use termstage::tmux_commands::{
    new_session_argv, resize_commands, scroll_commands, send_key_args,
    session_process_environment,
};

#[test]
fn test_should_create_tmux_session_command() {
    let command = TmuxSessionCommand::new(
        b"k9s".to_vec(),
        vec![b"-A".to_vec(), b"--readonly".to_vec()],
    );

    assert_eq!(command.executable(), b"k9s");
    assert_eq!(command.args(), [b"-A".to_vec(), b"--readonly".to_vec()]);
}

#[test]
fn test_should_parse_tmux_session_info() {
    let info = parse_session_info("presentation\t@1\t%2\t120\t40\n").unwrap();

    assert_eq!(info.session().as_str(), "presentation");
    assert_eq!(info.window().as_str(), "@1");
    assert_eq!(info.pane().as_str(), "%2");
    assert_eq!(info.size(), TerminalSize::new(120, 40).unwrap());
}

fn output(success: bool, stdout: &str, stderr: &str) -> TmuxOutput {
    TmuxOutput {
        success,
        stdout: stdout.as_bytes().to_vec(),
        stderr: stderr.as_bytes().to_vec(),
    }
}

fn target() -> BackendSessionRef {
    parse_reference(&SessionName::new("demo").unwrap(), "@1\t%2\n").unwrap()
}

#[test]
fn test_should_list_tmux_sessions() {
    let sessions = parse_session_list(output(true, "a\n b \nbad/name\n", "")).unwrap();
    let names: Vec<&str> = sessions.iter().map(SessionName::as_str).collect();
    assert_eq!(names, ["a", "b"]);
    assert!(parse_session_list(output(false, "", "no server running on /tmp/x"))
        .unwrap()
        .is_empty());
    assert!(matches!(
        parse_session_list(output(false, "", " broken \n")),
        Err(BackendError::Operation(message)) if message.as_str() == "broken"
    ));
    assert!(matches!(
        parse_session_list(output(false, "", "")),
        Err(BackendError::Operation(message)) if message.as_str() == "tmux list-sessions failed"
    ));
}

#[test]
fn test_should_reject_invalid_tmux_reports() {
    assert!(parse_session_info("presentation\t@1\t%2\t120\n").is_err());
    assert!(parse_session_info("bad/name\t@1\t%2\t120\t40\n").is_err());
    assert!(parse_metadata("80\t24\t4").is_err());
    assert!(parse_attached("x").is_err());
    assert!(parse_attached("1\n").unwrap());
    assert!(!parse_attached("0").unwrap());
}

#[test]
fn test_should_read_a_captured_screen() {
    let metadata = parse_metadata("80\t24\t4\t3\t0\n").unwrap();
    let screen = captured_screen(metadata, "one\r\ntwo\n");
    assert_eq!(screen.size(), TerminalSize::new(80, 24).unwrap());
    assert_eq!(screen.cursor_col(), 4);
    assert_eq!(screen.cursor_row(), 3);
    assert!(!screen.cursor_visible());
    assert_eq!(screen.lines(), ["one", "two"]);
}

#[test]
fn test_should_press_keys() {
    let target = target();
    assert_eq!(send_key_args(&target, "Enter"), ["send-keys", "-t", "%2", "C-j"]);
    assert_eq!(send_key_args(&target, "-x"), ["send-keys", "-t", "%2", "--", "-x"]);
    assert_eq!(send_key_args(&target, "C-c"), ["send-keys", "-t", "%2", "C-c"]);
}

#[test]
fn test_should_resize_and_scroll_panes() {
    let target = target();
    let commands = resize_commands(&target, TerminalSize::new(100, 30).unwrap());
    assert_eq!(commands[0], ["resize-window", "-t", "demo", "-x", "100", "-y", "30"]);
    assert_eq!(commands[1], ["resize-pane", "-t", "%2", "-x", "100", "-y", "30"]);
    assert_eq!(commands.len(), 3);
    let commands = scroll_commands(&target, BackendScrollDirection::Up, 7);
    assert_eq!(commands[1], ["send-keys", "-t", "%2", "-X", "-N", "7", "scroll-up"]);
}

#[test]
fn test_should_create_sessions_with_a_command() {
    let command = TmuxSessionCommand::new(b"k9s".to_vec(), vec![b"\xff".to_vec()]);
    let argv = new_session_argv(
        &SessionName::new("demo").unwrap(),
        TerminalSize::new(100, 30).unwrap(),
        &command,
        "1.0",
    );
    assert_eq!(argv[0], b"new-session");
    assert_eq!(argv[3], b"demo");
    assert_eq!(argv[5], b"100");
    assert_eq!(argv[argv.len() - 3], b"--");
    assert_eq!(argv[argv.len() - 2], b"k9s");
    assert_eq!(argv[argv.len() - 1], b"\xff");
}

#[test]
fn test_should_take_text_input_only() {
    assert_eq!(input_text(&Bytes::from_static(b"ls\n")).unwrap(), "ls\n");
    assert!(matches!(
        input_text(&Bytes::from_static(b"\xff")),
        Err(BackendError::UnsupportedInput)
    ));
    assert!(matches!(
        ensure_success(output(false, "", "gone"), "fallback"),
        Err(BackendError::Operation(message)) if message.as_str() == "gone"
    ));
}

#[test]
fn test_should_leave_term_to_tmux() {
    let variables = session_process_environment("1.2.3");
    let names: Vec<&str> = variables.iter().map(|(name, _)| name.as_str()).collect();
    assert_eq!(names, ["COLORTERM", "CLICOLOR", "TERM_PROGRAM", "TERM_PROGRAM_VERSION"]);
    assert_eq!(variables[0].1, "truecolor");
    assert_eq!(variables[3].1, "1.2.3");
}
