use bytes::Bytes;
use termstage::backend::{
    BackendAdapter, BackendError, BackendKind, BackendPaneId, BackendScreenSnapshot,
    BackendScrollDirection, BackendSessionRef, BackendWindowId,
};
use termstage::browser::{
    attach_gateway_browser, controller_from_client, is_silent, BrowserEvent, CloseCode,
    GatewayBrowser, SocketMessage, SocketPlan,
};
use termstage::clock::{Duration, Instant};
use termstage::net::{IpAddr, SocketAddr};
use termstage::operation_lock::{ControllerId, ControllerKind, ControllerRef};
use termstage::protocol::{
    AccessToken, ClientControlMessage, ErrorCode, HeartbeatSequence, LeaseOwner,
    ServerControlMessage, SessionName, TerminalCols, TerminalRows, TerminalSize,
};
use termstage::runtime::ClientId;
use termstage::runtime_browser::{
    browser_plan, frame_from_message, RuntimeBrowser, RuntimeBrowserEvent,
};
use termstage::security::{BasePath, ExposurePolicy, LoopbackBind, PublicBaseUrl, SecurityError};
use termstage::session_gateway::SessionGateway;
use termstage::tunnel::{
    TunnelCloseReason, TunnelFrame, TunnelRuntimeControl, TunnelTerminalPayload,
};
use termstage::web::{
    agent_controller, api_acquire_lock, api_release_lock, local_launch_url, route_path,
    run_semantic_command, screen_response, send_semantic_key, send_semantic_text,
    validate_asset_request, validate_http_request, validate_run_command, wait_for_screen_text,
    ApiError, CommandWatch, OriginHeader, PresentationSettings, RequestHead, RunCommandRequest,
    WaitStep, WatchStep,
};

#[derive(Debug)]
struct FakeBackend {
    written: Vec<Bytes>,
    typed: Vec<String>,
    resizes: usize,
    lines: Vec<String>,
    native: bool,
    gone: bool,
}

impl BackendAdapter for FakeBackend {
    fn create_or_find_session(
        &mut self,
        session: &SessionName,
        _size: TerminalSize,
    ) -> Result<BackendSessionRef, BackendError> {
        Ok(BackendSessionRef::new(
            BackendKind::Tmux,
            session.clone(),
            BackendWindowId::new("0")?,
            BackendPaneId::new("%1")?,
        ))
    }

    fn write_input(&mut self, _: &BackendSessionRef, bytes: Bytes) -> Result<(), BackendError> {
        self.written.push(bytes);
        Ok(())
    }

    fn send_text(&mut self, _: &BackendSessionRef, text: &str) -> Result<(), BackendError> {
        self.typed.push(text.to_owned());
        Ok(())
    }

    fn send_key(&mut self, _: &BackendSessionRef, key: &str) -> Result<(), BackendError> {
        self.typed.push(format!("<{key}>"));
        Ok(())
    }

    fn run_command(&mut self, _: &BackendSessionRef, command: &str) -> Result<(), BackendError> {
        self.typed.push(format!("{command}<Enter>"));
        Ok(())
    }

    fn resize(&mut self, _: &BackendSessionRef, _: TerminalSize) -> Result<(), BackendError> {
        self.resizes += 1;
        Ok(())
    }

    fn read_screen(
        &mut self,
        _: &BackendSessionRef,
    ) -> Result<BackendScreenSnapshot, BackendError> {
        if self.gone {
            return Err(BackendError::SessionNotFound);
        }
        Ok(BackendScreenSnapshot::new(size(80, 24), 0, 0, self.lines.clone()))
    }

    fn has_native_client(&mut self, _: &BackendSessionRef) -> Result<bool, BackendError> {
        Ok(self.native)
    }

    fn scroll(
        &mut self,
        _: &BackendSessionRef,
        _: BackendScrollDirection,
        _: u16,
    ) -> Result<(), BackendError> {
        Ok(())
    }

    fn close_session(&mut self, _: &BackendSessionRef) -> Result<(), BackendError> {
        Ok(())
    }
}

fn size(cols: u16, rows: u16) -> TerminalSize {
    TerminalSize::new(cols, rows).unwrap()
}

fn name(text: &str) -> SessionName {
    SessionName::new(text).unwrap()
}

fn agent(id: u64) -> ControllerRef {
    ControllerRef::new(ControllerKind::Agent, ControllerId::new(id).unwrap())
}

fn at(secs: u64) -> Instant {
    Instant::from_nanos(secs * 1_000_000_000)
}

fn gateway(native: bool, gone: bool) -> SessionGateway<FakeBackend> {
    let backend = FakeBackend {
        written: Vec::new(),
        typed: Vec::new(),
        resizes: 0,
        lines: vec!["prompt".to_owned()],
        native,
        gone,
    };
    let mut gateway = SessionGateway::new(backend, Duration::from_secs(90));
    gateway.create_or_find_session(name("demo"), name("demo"), size(80, 24)).unwrap();
    gateway
}

fn messages(plan: SocketPlan) -> Vec<SocketMessage> {
    plan.sends.into_iter().map(|send| send.message).collect()
}

fn control(message: ServerControlMessage) -> SocketMessage {
    SocketMessage::Control(message)
}

fn lease(owner: LeaseOwner, epoch: u64) -> SocketMessage {
    control(ServerControlMessage::LeaseChanged { owner, epoch })
}

fn connect(gateway: &mut SessionGateway<FakeBackend>, id: u64, now: Instant) -> GatewayBrowser {
    let controller = controller_from_client(ClientId::new(id)).unwrap();
    let (lease, _plan) =
        attach_gateway_browser(gateway, &name("demo"), controller, None, now).unwrap();
    GatewayBrowser::new(name("demo"), controller, lease, None, now)
}

#[test]
fn test_should_show_a_browser_the_screen_when_it_connects() {
    let mut gateway = gateway(false, false);
    let controller = controller_from_client(ClientId::new(1)).unwrap();
    let (known, plan) =
        attach_gateway_browser(&mut gateway, &name("demo"), controller, None, at(1)).unwrap();
    assert!(known.owns_lease);
    let sent = messages(plan);
    assert_eq!(sent[0], lease(LeaseOwner::Browser, 0));
    assert_eq!(sent[1], control(ServerControlMessage::ReplayStarted));
    assert!(matches!(&sent[3], SocketMessage::Binary(bytes) if bytes.windows(6).any(|w| w == b"prompt")));
    assert_eq!(sent[4], control(ServerControlMessage::ReplayFinished));
    assert!(controller_from_client(ClientId::new(0)).is_err());
}

#[test]
fn test_should_write_browser_input_for_the_owner_only() {
    let mut gateway = gateway(false, false);
    let mut owner = connect(&mut gateway, 1, at(1));
    let mut other = connect(&mut gateway, 2, at(1));

    let plan =
        owner.step(&mut gateway, BrowserEvent::Binary(Bytes::from_static(b"ls\n")), at(2));
    assert!(plan.sends.is_empty() && !plan.close);
    let plan = other.step(&mut gateway, BrowserEvent::Binary(Bytes::from_static(b"no")), at(2));
    assert!(matches!(
        &messages(plan)[..],
        [SocketMessage::Control(ServerControlMessage::Error { code: ErrorCode::Forbidden, .. })]
    ));
    assert_eq!(gateway.into_backend().written, [Bytes::from_static(b"ls\n")]);
}

#[test]
fn test_should_ignore_browser_resize_for_tmux_gateway() {
    let mut gateway = gateway(false, false);
    let mut browser = connect(&mut gateway, 1, at(1));
    let plan = browser.step(
        &mut gateway,
        BrowserEvent::Text(Some(ClientControlMessage::Resize {
            cols: TerminalCols::new(100).unwrap(),
            rows: TerminalRows::new(30).unwrap(),
        })),
        at(2),
    );
    assert_eq!(
        messages(plan),
        [control(ServerControlMessage::SizeChanged { size: size(100, 30) })]
    );
    assert_eq!(gateway.into_backend().resizes, 0);
}

#[test]
fn test_should_close_gateway_socket_when_tmux_session_ends() {
    let mut live = gateway(false, false);
    let mut browser = connect(&mut live, 1, at(1));
    let mut dead = gateway(false, true);
    let plan = browser.step(&mut dead, BrowserEvent::ScreenTick, at(2));
    assert!(plan.close);
    assert!(matches!(&messages(plan)[..], [.., SocketMessage::Close(_)]));
}

#[test]
fn test_should_send_a_screen_once() {
    let mut gateway = gateway(false, false);
    let mut browser = connect(&mut gateway, 1, at(1));
    let plan = browser.step(&mut gateway, BrowserEvent::ScreenTick, at(2));
    assert!(matches!(&messages(plan)[..], [SocketMessage::Binary(_)]));
    let plan = browser.step(&mut gateway, BrowserEvent::ScreenTick, at(3));
    assert!(plan.sends.is_empty() && !plan.close);
}

#[test]
fn test_should_leave_control_to_a_native_client() {
    let mut attached = gateway(true, false);
    let mut browser = connect(&mut attached, 1, at(1));
    let plan =
        browser.step(&mut attached, BrowserEvent::Binary(Bytes::from_static(b"x")), at(2));
    assert!(matches!(
        &messages(plan)[..],
        [SocketMessage::Control(ServerControlMessage::Error { .. })]
    ));

    let mut free = gateway(false, false);
    let mut browser = connect(&mut free, 1, at(1));
    let plan = browser.step(&mut attached, BrowserEvent::ScreenTick, at(2));
    assert_eq!(messages(plan)[0], lease(LeaseOwner::Terminal, 0));
}

#[test]
fn test_should_reject_agent_lock_when_browser_owns_gateway() {
    let mut gateway = gateway(false, false);
    let browser = connect(&mut gateway, 1, at(1));
    assert_eq!(
        api_acquire_lock(&mut gateway, &name("demo"), agent(7), at(2)).unwrap_err(),
        ApiError::Conflict
    );
    browser.finish(&mut gateway, at(3));
    let lock = api_acquire_lock(&mut gateway, &name("demo"), agent(7), at(4)).unwrap();
    assert_eq!(lock.owner, LeaseOwner::Agent);
}

#[test]
fn test_should_reject_semantic_write_from_non_owner() {
    let mut gateway = gateway(false, false);
    let session = name("demo");
    api_acquire_lock(&mut gateway, &session, agent(1), at(1)).unwrap();
    assert_eq!(
        send_semantic_text(&mut gateway, &session, agent(2), "no", at(2)).unwrap_err(),
        ApiError::Forbidden
    );
    send_semantic_text(&mut gateway, &session, agent(1), "yes", at(2)).unwrap();
    send_semantic_key(&mut gateway, &session, agent(1), "Enter", at(2)).unwrap();
    run_semantic_command(&mut gateway, &session, agent(1), "ls", at(2)).unwrap();
    assert_eq!(
        send_semantic_text(&mut gateway, &name("other"), agent(1), "no", at(2)).unwrap_err(),
        ApiError::NotFound
    );
    api_release_lock(&mut gateway, &session, agent(1), at(3)).unwrap();
    assert_eq!(
        send_semantic_text(&mut gateway, &session, agent(1), "late", at(3)).unwrap_err(),
        ApiError::Forbidden
    );
    assert_eq!(gateway.into_backend().typed, ["yes", "<Enter>", "ls<Enter>"]);
}

#[test]
fn test_should_take_control_that_is_asked_for() {
    let mut gateway = gateway(false, false);
    api_acquire_lock(&mut gateway, &name("demo"), agent(1), at(1)).unwrap();
    let mut browser = connect(&mut gateway, 1, at(2));
    let ask = || BrowserEvent::Text(Some(ClientControlMessage::AcquireControl));
    assert!(browser.step(&mut gateway, ask(), at(3)).sends.is_empty());
    api_release_lock(&mut gateway, &name("demo"), agent(1), at(4)).unwrap();
    let plan = browser.step(&mut gateway, ask(), at(5));
    assert_eq!(messages(plan), [lease(LeaseOwner::Browser, 1)]);
}

#[test]
fn test_should_close_silent_and_broken_browsers() {
    assert!(!is_silent(at(10), at(99)));
    assert!(is_silent(at(10), at(100)));
    let mut gateway = gateway(false, false);
    let mut browser = connect(&mut gateway, 1, at(1));
    let beat = ClientControlMessage::Heartbeat { sequence: HeartbeatSequence::new(1) };
    browser.step(&mut gateway, BrowserEvent::Text(Some(beat)), at(50));
    assert!(!browser.step(&mut gateway, BrowserEvent::HeartbeatTick, at(139)).close);
    assert!(browser.step(&mut gateway, BrowserEvent::HeartbeatTick, at(140)).close);
    let plan = browser.step(&mut gateway, BrowserEvent::Text(None), at(141));
    assert!(plan.close);
    assert!(matches!(
        &messages(plan)[..],
        [_, SocketMessage::Close(frame)] if frame.code == CloseCode::Protocol
    ));
    assert!(browser.step(&mut gateway, BrowserEvent::Closed, at(142)).close);
}

#[test]
fn test_should_forward_frames_between_browser_and_runtime() {
    let client_id = ClientId::new(5);
    let mut browser = RuntimeBrowser::new(client_id, at(1));
    assert!(browser.attach_frame() == TunnelFrame::AttachBrowser { client_id });
    assert!(
        frame_from_message(client_id, ClientControlMessage::AcquireControl)
            == Some(TunnelFrame::BrowserAcquireControl { client_id })
    );
    let step = browser.step(
        RuntimeBrowserEvent::Binary(Bytes::from_static(b"pwd\n")),
        at(2),
    );
    assert!(
        step.forward
            == Some(TunnelFrame::BrowserInput {
                client_id,
                bytes: TunnelTerminalPayload::new(Bytes::from_static(b"pwd\n")).unwrap(),
            })
    );
    let plan = browser_plan(TunnelFrame::RuntimeControl {
        client_id: None,
        control: TunnelRuntimeControl::Closed { reason: TunnelCloseReason::ChildExit },
    });
    assert!(plan.close);
}

fn head(peer: [u8; 4], host: &str, origin: OriginHeader, token: &AccessToken) -> RequestHead {
    RequestHead {
        peer: SocketAddr { ip: IpAddr::V4(peer), port: 50000 },
        host: Some(host.to_owned()),
        origin,
        token: token.to_url_token(),
    }
}

#[test]
fn test_should_validate_public_websocket_origin() {
    let token = AccessToken::from_bytes([9; 32]);
    let policy =
        ExposurePolicy::Public(PublicBaseUrl::parse("https://term.example.com/").unwrap());
    let good = head(
        [192, 0, 2, 10],
        "term.example.com",
        OriginHeader::Text("https://term.example.com".to_owned()),
        &token,
    );
    assert!(validate_http_request(&good, &policy, &token, true).is_ok());
    let bad = RequestHead { origin: OriginHeader::Text("https://evil.example".to_owned()), ..good };
    assert!(matches!(
        validate_http_request(&bad, &policy, &token, true),
        Err(SecurityError::InvalidOrigin)
    ));
}

#[test]
fn test_should_reject_invalid_websocket_origin() {
    let token = AccessToken::from_bytes([9; 32]);
    let policy = ExposurePolicy::local(IpAddr::V4([127, 0, 0, 1]), 49152).unwrap();
    let request = head(
        [127, 0, 0, 1],
        "127.0.0.1:49152",
        OriginHeader::Text("http://evil.example".to_owned()),
        &token,
    );
    assert!(matches!(
        validate_http_request(&request, &policy, &token, true),
        Err(SecurityError::InvalidOrigin)
    ));
    let absent = RequestHead { origin: OriginHeader::Absent, ..request };
    assert!(validate_http_request(&absent, &policy, &token, false).is_ok());
    assert!(validate_http_request(&absent, &policy, &token, true).is_err());
}

#[test]
fn test_should_reject_invalid_token_and_host() {
    let token = AccessToken::from_bytes([9; 32]);
    let policy = ExposurePolicy::local(IpAddr::V4([127, 0, 0, 1]), 49152).unwrap();
    let refusal = |request: &RequestHead| {
        validate_http_request(request, &policy, &token, false).unwrap_err()
    };
    let good = head([127, 0, 0, 1], "127.0.0.1:49152", OriginHeader::Absent, &token);
    assert_eq!(
        refusal(&RequestHead { token: "bad".to_owned(), ..good.clone() }),
        SecurityError::InvalidToken
    );
    assert_eq!(
        refusal(&RequestHead { host: Some("example.com:49152".to_owned()), ..good.clone() }),
        SecurityError::InvalidHost
    );
    assert_eq!(refusal(&RequestHead { host: None, ..good }), SecurityError::InvalidHost);
    assert_eq!(
        refusal(&head([192, 0, 2, 10], "127.0.0.1:49152", OriginHeader::Absent, &token)),
        SecurityError::InvalidPeer
    );
}

#[test]
fn test_should_validate_asset_host_and_peer() {
    let policy = ExposurePolicy::local(IpAddr::V4([127, 0, 0, 1]), 49152).unwrap();
    let peer = SocketAddr { ip: IpAddr::V4([127, 0, 0, 1]), port: 1 };
    assert!(validate_asset_request(peer, &Some("127.0.0.1:49152".to_owned()), &policy).is_ok());
    assert!(validate_asset_request(peer, &Some("example.com:49152".to_owned()), &policy).is_err());
}

#[test]
fn test_should_build_local_launch_url_with_base_path() {
    let bind = LoopbackBind::new(IpAddr::V4([127, 0, 0, 1]), 49152).unwrap();
    let token = AccessToken::from_bytes([4; 32]);
    let base = BasePath::parse("/p/sess-1/").unwrap();
    let presentation = PresentationSettings::default();
    assert_eq!(
        local_launch_url(bind, Some(&base), &token, presentation),
        format!(
            "http://127.0.0.1:49152/p/sess-1/?token={}&fontSize=24&theme=high-contrast",
            "04".repeat(32)
        )
    );
    assert_eq!(route_path(Some(&base), "/ws"), "/p/sess-1/ws");
    assert_eq!(route_path(None, "/ws"), "/ws");
}

#[test]
fn test_should_answer_api_failures() {
    assert_eq!(ApiError::Conflict.into_response().0, 409);
    assert_eq!(ApiError::Forbidden.into_response().0, 403);
    assert_eq!(ApiError::NotFound.into_response().0, 404);
    assert_eq!(ApiError::BadRequest.into_response().0, 400);
    assert_eq!(ApiError::Runtime.into_response().0, 500);
    assert!(ApiError::Security(SecurityError::InvalidHost).into_response().1.is_none());
    assert!(agent_controller(0).is_err());
    let request = |command: &str, wait_for: Option<&str>| RunCommandRequest {
        controller_id: 3,
        command: command.to_owned(),
        wait_for: wait_for.map(str::to_owned),
        wait_timeout_ms: None,
        capture: false,
    };
    assert!(validate_run_command(&request("ls", Some("x"))).is_ok());
    assert!(validate_run_command(&request("a\nb", None)).is_err());
    assert!(validate_run_command(&request("ls", Some(""))).is_err());
}

#[test]
fn test_should_wait_for_text_on_the_screen() {
    let snapshot =
        BackendScreenSnapshot::new(size(80, 24), 2, 1, vec!["x".to_owned(), "done.".to_owned()]);
    assert_eq!(wait_for_screen_text(&snapshot, "done", at(9), at(9)), WaitStep::Matched);
    assert_eq!(wait_for_screen_text(&snapshot, "never", at(8), at(9)), WaitStep::Again);
    assert_eq!(wait_for_screen_text(&snapshot, "never", at(9), at(9)), WaitStep::TimedOut);
    let response = screen_response(&snapshot);
    assert_eq!(response.cursor_col, 2);
    assert_eq!(response.lines, ["x", "done."]);
}

#[test]
fn test_should_answer_a_command_with_what_was_asked_for() {
    let screen = |line: &str| {
        BackendScreenSnapshot::new(size(80, 24), 0, 0, vec![line.to_owned()])
    };
    let timeout = Duration::from_secs(5);
    let start = |needle: Option<&str>, capture| {
        CommandWatch::start(needle.map(str::to_owned), capture, at(10), timeout).unwrap()
    };

    let (_, step) = start(None, false);
    assert!(matches!(step, WatchStep::Finish { matched: None, screen: None }));

    let (watch, step) = start(None, true);
    assert!(matches!(step, WatchStep::Read));
    let WatchStep::Finish { matched: None, screen: Some(shown) } = watch.step(screen("a"), at(10))
    else {
        panic!("the screen is missing");
    };
    assert_eq!(shown.lines(), ["a"]);

    let (watch, step) = start(Some("done"), false);
    assert!(matches!(step, WatchStep::Read));
    assert!(matches!(watch.step(screen("busy"), at(14)), WatchStep::Pause));
    assert!(matches!(
        watch.step(screen("busy"), at(15)),
        WatchStep::Finish { matched: Some(false), screen: None }
    ));
    assert!(matches!(
        watch.step(screen("done"), at(99)),
        WatchStep::Finish { matched: Some(true), screen: None }
    ));

    let (watch, _) = start(Some("done"), true);
    assert!(matches!(
        watch.step(screen("done"), at(11)),
        WatchStep::Finish { matched: Some(true), screen: Some(_) }
    ));

    let endless = Duration::from_secs(u64::MAX);
    let late = CommandWatch::start(Some("x".to_owned()), false, at(10), endless);
    assert!(matches!(late, Err(ApiError::BadRequest)));
    assert!(CommandWatch::start(None, true, at(10), endless).is_ok());
}
