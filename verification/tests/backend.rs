use termstage::backend::{
    BackendKind, BackendPaneId, BackendScreenSnapshot, BackendSessionRef, BackendWindowId,
};
use termstage::protocol::{SessionName, TerminalSize};

#[test]
fn test_should_create_backend_session_reference() {
    let reference = BackendSessionRef::new(
        BackendKind::Tmux,
        SessionName::new("demo").unwrap(),
        BackendWindowId::new("0").unwrap(),
        BackendPaneId::new("%1").unwrap(),
    );

    assert_eq!(reference.kind(), BackendKind::Tmux);
    assert_eq!(reference.session().as_str(), "demo");
    assert_eq!(reference.window().as_str(), "0");
    assert_eq!(reference.pane().as_str(), "%1");
}

#[test]
fn test_should_create_screen_snapshot() {
    let snapshot = BackendScreenSnapshot::new(
        TerminalSize::new(80, 24).unwrap(),
        4,
        3,
        vec!["prompt".to_owned()],
    );

    assert_eq!(snapshot.size(), TerminalSize::new(80, 24).unwrap());
    assert_eq!(snapshot.cursor_col(), 4);
    assert_eq!(snapshot.cursor_row(), 3);
    assert_eq!(snapshot.lines(), ["prompt"]);
    assert!(snapshot.cursor_visible());
}

#[test]
fn test_should_bound_backend_ids() {
    assert!(BackendWindowId::new(&"x".repeat(512)).is_ok());
    assert!(BackendWindowId::new(&"x".repeat(513)).is_err());
    assert!(BackendPaneId::new(&"x".repeat(513)).is_err());
}
