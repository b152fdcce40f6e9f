use termstage::backend::BackendScreenSnapshot;
use termstage::protocol::TerminalSize;
use termstage::screen::{project_snapshot_line, screen_snapshot_bytes, GatewayViewport};

fn size(cols: u16, rows: u16) -> TerminalSize {
    TerminalSize::new(cols, rows).unwrap()
}

fn numbered_snapshot_lines(rows: u16) -> Vec<String> {
    (0..rows).map(|row| format!("row-{row:02}")).collect()
}

fn rendered(snapshot: &BackendScreenSnapshot, viewport: GatewayViewport) -> String {
    let bytes = screen_snapshot_bytes(snapshot, Some(viewport));
    String::from_utf8(bytes.to_vec()).unwrap()
}

#[test]
fn test_should_render_gateway_snapshot_without_forcing_visible_cursor_to_bottom() {
    let snapshot =
        BackendScreenSnapshot::new(size(120, 40), 10, 10, numbered_snapshot_lines(40));

    let text = rendered(&snapshot, GatewayViewport::new(size(80, 24)));

    assert!(text.starts_with("\u{1b}[0m\u{1b}[?7l\u{1b}[H\u{1b}[2Jrow-00"));
    assert!(text.contains("row-23"));
    assert!(!text.contains("row-24"));
    assert!(text.ends_with("\u{1b}[0m\u{1b}[?7h\u{1b}[11;11H"));
}

#[test]
fn test_should_render_gateway_snapshot_bottom_when_cursor_is_near_backend_bottom() {
    let snapshot =
        BackendScreenSnapshot::new(size(120, 40), 10, 37, numbered_snapshot_lines(40));

    let text = rendered(&snapshot, GatewayViewport::new(size(80, 24)));

    assert!(text.starts_with("\u{1b}[0m\u{1b}[?7l\u{1b}[H\u{1b}[2Jrow-16"));
    assert!(!text.contains("row-15"));
    assert!(text.contains("row-39"));
    assert!(text.ends_with("\u{1b}[0m\u{1b}[?7h\u{1b}[22;11H"));
}

#[test]
fn test_should_project_gateway_snapshot_horizontally() {
    let snapshot = BackendScreenSnapshot::new(
        size(40, 24),
        35,
        3,
        vec!["0000000000111111111122222222223333333333".to_owned()],
    );

    let text = rendered(&snapshot, GatewayViewport::new(size(20, 5)));

    assert!(text.contains("22222222223333333333"));
    assert!(!text.contains("0000000000"));
    assert!(text.ends_with("\u{1b}[0m\u{1b}[?7h\u{1b}[4;16H"));
}

#[test]
fn test_should_project_gateway_snapshot_from_requested_origin() {
    let mut viewport = GatewayViewport::new(size(20, 5));
    viewport.update_origin(Some(8), None);
    let snapshot = BackendScreenSnapshot::new(
        size(40, 24),
        2,
        3,
        vec!["0123456789abcdefghijklmnopqrst".to_owned()],
    );

    let text = rendered(&snapshot, viewport);

    assert!(text.contains("89abcdefghijklmnopq"));
    assert!(!text.contains("01234567"));
    assert!(!text.contains("rst"));
    assert!(text.ends_with("\u{1b}[0m\u{1b}[?7h\u{1b}[4;1H"));
}

#[test]
fn test_should_preserve_ansi_state_when_projecting_gateway_snapshot() {
    let mut viewport = GatewayViewport::new(size(20, 5));
    viewport.update_origin(Some(4), None);
    let snapshot = BackendScreenSnapshot::new(
        size(120, 24),
        5,
        0,
        vec!["\u{1b}[31m0123456789\u{1b}[0m".to_owned()],
    );

    let text = rendered(&snapshot, viewport);

    assert!(text.contains("\u{1b}[31m456789"));
    assert!(!text.contains("0123"));
    assert!(text.ends_with("\u{1b}[0m\u{1b}[?7h\u{1b}[1;2H"));
}

#[test]
fn test_should_show_the_whole_screen_without_a_viewport() {
    let snapshot = BackendScreenSnapshot::new(size(20, 5), 0, 0, vec!["a".to_owned()]);
    let bytes = screen_snapshot_bytes(&snapshot, None);
    let text = String::from_utf8(bytes.to_vec()).unwrap();
    assert!(text.starts_with("\u{1b}[0m\u{1b}[?7l\u{1b}[H\u{1b}[2Ja"));
    assert!(text.ends_with("\u{1b}[1;1H"));
}

#[test]
fn test_should_project_wide_characters_by_cell() {
    assert_eq!(project_snapshot_line("abc", 1, 1), "b");
    assert_eq!(project_snapshot_line("\u{4e2d}\u{6587}x", 2, 3), "\u{6587}x");
}

#[test]
fn test_should_clamp_requested_viewports() {
    assert!(GatewayViewport::requested(None, Some(24)).is_none());
    assert!(GatewayViewport::requested(Some(1), Some(24)).is_none());
    let viewport = GatewayViewport::requested(Some(100), Some(30)).unwrap();
    assert_eq!(viewport.size(), size(100, 30));
}
