use termstage::backend::{BackendError, BackendKind, BackendPaneId, BackendSessionRef, BackendWindowId};
use termstage::protocol::{ProtocolError, SessionName};
use termstage::rmux_backend::{
    default_shell_command_from_executable, has_attached_clients,
    inherited_shell_executable_from_env, listed_sessions, map_rmux_error, pane_id_from_backend,
    pane_screen, pane_target, require_absent, rmux_backend_ref, rmux_session_environment,
    safe_message, session_info, to_rmux_session_name, RmuxBackendConfig, RmuxBindings, RmuxSessionCommand,
};

fn name(text: &str) -> SessionName {
    SessionName::new(text).unwrap()
}

fn operation_text(error: BackendError) -> String {
    match error {
        BackendError::Operation(message) => message.as_str().to_owned(),
        other => panic!("unexpected {other:?}"),
    }
}

#[test]
fn test_should_reject_rmux_session_names_that_would_be_rewritten() {
    let session = name("demo.with.dot");
    let error = to_rmux_session_name(&session);

    assert!(matches!(error, Err(BackendError::Operation(_))));
    assert_eq!(to_rmux_session_name(&name("demo-1_x")).unwrap(), "demo-1_x");
}

#[test]
fn test_should_parse_rmux_pane_id() {
    let pane = BackendPaneId::new("%42").unwrap();

    assert_eq!(pane_id_from_backend(&pane).unwrap(), 42);
}

#[test]
fn test_should_reject_invalid_rmux_pane_id() {
    let pane = BackendPaneId::new("42").unwrap();

    assert!(matches!(pane_id_from_backend(&pane), Err(BackendError::Operation(_))));
    assert!(pane_id_from_backend(&BackendPaneId::new("%4294967296").unwrap()).is_err());
}

#[test]
fn test_should_build_utf8_rmux_session_command() {
    let command =
        RmuxSessionCommand::try_new(b"k9s".to_vec(), vec![b"--readonly".to_vec()]).unwrap();

    assert_eq!(command.argv(), ["k9s", "--readonly"]);
}

#[test]
fn test_should_reject_invalid_rmux_session_command() {
    assert_eq!(
        operation_text(RmuxSessionCommand::try_new(Vec::new(), Vec::new()).unwrap_err()),
        "rmux command executable must not be empty"
    );
    assert!(matches!(
        RmuxSessionCommand::try_new(b"sh".to_vec(), vec![vec![0xff]]),
        Err(BackendError::UnsupportedInput)
    ));
    assert!(matches!(
        RmuxSessionCommand::try_new(vec![0xff], Vec::new()),
        Err(BackendError::UnsupportedInput)
    ));
}

#[test]
fn test_should_choose_rmux_default_shell_from_environment() {
    let shell = inherited_shell_executable_from_env(Some(b"/bin/zsh".to_vec())).unwrap();
    let command = default_shell_command_from_executable(&shell).unwrap();

    assert_eq!(shell, "/bin/zsh");
    assert_eq!(command.argv(), ["/bin/zsh"]);
}

#[test]
fn test_should_fallback_to_bin_sh_for_missing_rmux_shell() {
    let missing_shell = inherited_shell_executable_from_env(None).unwrap();
    let empty_shell = inherited_shell_executable_from_env(Some(Vec::new())).unwrap();

    assert_eq!(missing_shell, "/bin/sh");
    assert_eq!(empty_shell, "/bin/sh");
}

#[test]
fn test_should_include_shell_in_rmux_session_environment() {
    let environment = rmux_session_environment("/bin/zsh", "1.2.3");

    assert!(environment.iter().any(|entry| entry == "SHELL=/bin/zsh"));
    assert!(environment.iter().any(|entry| entry == "CLICOLOR=1"));
    assert!(environment.iter().any(|entry| entry == "TERM_PROGRAM_VERSION=1.2.3"));
}

#[test]
fn test_should_read_back_a_written_pane() {
    let reference = rmux_backend_ref(&name("demo"), u32::MAX).unwrap();
    assert_eq!(reference.window().as_str(), "0");
    assert_eq!(reference.pane().as_str(), "%4294967295");
    assert_eq!(pane_target(&reference).unwrap(), ("demo".to_owned(), u32::MAX));

    let tmux = BackendSessionRef::new(
        BackendKind::Tmux,
        name("demo"),
        BackendWindowId::new("0").unwrap(),
        BackendPaneId::new("%1").unwrap(),
    );
    assert_eq!(
        operation_text(pane_target(&tmux).unwrap_err()),
        "backend target is not an rmux pane"
    );
}

#[test]
fn test_should_tell_failures_apart() {
    assert!(matches!(
        map_rmux_error("daemon: session not found: x", None),
        BackendError::SessionNotFound
    ));
    assert!(matches!(
        map_rmux_error("broken", Some(std::io::Error::from(std::io::ErrorKind::BrokenPipe))),
        BackendError::Io(_)
    ));
    assert_eq!(operation_text(map_rmux_error("  broken \n", None)), "broken");
    assert_eq!(operation_text(map_rmux_error(" ", None)), "rmux operation failed");
}

#[test]
fn test_should_cut_long_failures_at_a_character() {
    let message = safe_message(&"\u{e9}".repeat(300), "fallback");
    assert_eq!(message.as_str(), "\u{e9}".repeat(256));
    let odd = format!("x{}", "\u{e9}".repeat(300));
    assert_eq!(safe_message(&odd, "fallback").as_str().len(), 511);
}

#[test]
fn test_should_close_what_was_created() {
    let config = RmuxBackendConfig::default();
    assert_eq!(config.default_operation_timeout.as_nanos(), 5_000_000_000);
    let mut bindings = RmuxBindings::new();
    bindings.remember_binding(&name("made"), true);
    bindings.remember_binding(&name("found"), false);

    assert!(bindings.should_kill(&name("made"), &config));
    assert!(!bindings.should_kill(&name("found"), &config));
    assert!(!bindings.should_kill(&name("other"), &config));
    bindings.forget(&name("made"));
    assert!(!bindings.should_kill(&name("made"), &config));
}

#[test]
fn test_should_count_attached_clients() {
    let clients = vec![("a".to_owned(), 0), ("b".to_owned(), 2)];
    assert!(!has_attached_clients(&clients, &name("a")));
    assert!(has_attached_clients(&clients, &name("b")));
    assert!(!has_attached_clients(&clients, &name("c")));
    assert!(require_absent(false).is_ok());
    assert_eq!(operation_text(require_absent(true).unwrap_err()), "rmux session already exists");
}

#[test]
fn test_should_list_sessions_with_valid_names() {
    let names = vec!["one".to_owned(), "two words".to_owned(), "".to_owned(), "three".to_owned()];
    let listed = listed_sessions(&names);
    let texts: Vec<&str> = listed.iter().map(|session| session.as_str()).collect();
    assert_eq!(texts, ["one", "three"]);
}

#[test]
fn test_should_describe_a_session_by_its_first_pane() {
    let info = session_info(name("demo"), Some((7, 100, 30))).unwrap();
    assert_eq!(info.session().as_str(), "demo");
    assert_eq!(info.window().as_str(), "0");
    assert_eq!(info.pane().as_str(), "%7");
    assert_eq!((info.size().cols.get(), info.size().rows.get()), (100, 30));
    assert!(matches!(session_info(name("demo"), None), Err(BackendError::SessionNotFound)));
    assert!(matches!(
        session_info(name("demo"), Some((7, 1, 30))),
        Err(BackendError::Protocol(ProtocolError::InvalidTerminalCols))
    ));
}

#[test]
fn test_should_describe_the_screen_of_a_pane() {
    let screen = pane_screen(80, 24, (3, 4), false, vec!["x".to_owned()]).unwrap();
    assert_eq!((screen.cursor_col(), screen.cursor_row()), (3, 4));
    assert!(!screen.cursor_visible());
    assert_eq!(screen.lines(), ["x"]);
    assert!(matches!(
        pane_screen(80, 1, (0, 0), true, Vec::new()),
        Err(BackendError::Protocol(ProtocolError::InvalidTerminalRows))
    ));
}
