use bytes::Bytes;
use termstage::backend::{
    BackendAdapter, BackendError, BackendKind, BackendPaneId, BackendScreenSnapshot,
    BackendScrollDirection, BackendSessionRef, BackendWindowId,
};
use termstage::clock::{Duration, Instant};
use termstage::operation_lock::{
    ControllerId, ControllerKind, ControllerRef, OperationLockError,
};
use termstage::protocol::{SafeMessage, SessionName, TerminalSize};
use termstage::session_gateway::{
    serving_step, ServingEvent, ServingStep, SessionGateway, SessionGatewayError,
};
use termstage::session_registry::SessionRegistryError;

#[derive(Debug, Default)]
struct FakeBackend {
    created: Vec<SessionName>,
    writes: Vec<Bytes>,
    resizes: Vec<TerminalSize>,
    texts: Vec<String>,
    closed: Vec<SessionName>,
    fail_close: bool,
    fail_write: bool,
}

impl FakeBackend {
    fn reference(session: &SessionName) -> Result<BackendSessionRef, BackendError> {
        Ok(BackendSessionRef::new(
            BackendKind::Tmux,
            session.clone(),
            BackendWindowId::new("0")?,
            BackendPaneId::new("%1")?,
        ))
    }
}

impl BackendAdapter for FakeBackend {
    fn create_or_find_session(
        &mut self,
        session: &SessionName,
        _size: TerminalSize,
    ) -> Result<BackendSessionRef, BackendError> {
        self.created.push(session.clone());
        Self::reference(session)
    }

    fn write_input(
        &mut self,
        _target: &BackendSessionRef,
        bytes: Bytes,
    ) -> Result<(), BackendError> {
        if self.fail_write {
            return Err(BackendError::UnsupportedInput);
        }
        self.writes.push(bytes);
        Ok(())
    }

    fn send_text(&mut self, _target: &BackendSessionRef, text: &str) -> Result<(), BackendError> {
        self.texts.push(text.to_owned());
        Ok(())
    }

    fn send_key(&mut self, _target: &BackendSessionRef, key: &str) -> Result<(), BackendError> {
        self.texts.push(format!("<{key}>"));
        Ok(())
    }

    fn run_command(
        &mut self,
        _target: &BackendSessionRef,
        command: &str,
    ) -> Result<(), BackendError> {
        self.texts.push(format!("{command}\n"));
        Ok(())
    }

    fn resize(
        &mut self,
        _target: &BackendSessionRef,
        size: TerminalSize,
    ) -> Result<(), BackendError> {
        self.resizes.push(size);
        Ok(())
    }

    fn read_screen(
        &mut self,
        target: &BackendSessionRef,
    ) -> Result<BackendScreenSnapshot, BackendError> {
        Ok(BackendScreenSnapshot::new(
            TerminalSize::new(80, 24).unwrap(),
            0,
            0,
            vec![format!("session={}", target.session().as_str())],
        ))
    }

    fn has_native_client(&mut self, _target: &BackendSessionRef) -> Result<bool, BackendError> {
        Ok(false)
    }

    fn scroll(
        &mut self,
        _target: &BackendSessionRef,
        _direction: BackendScrollDirection,
        amount: u16,
    ) -> Result<(), BackendError> {
        self.texts.push(format!("scroll {amount}"));
        Ok(())
    }

    fn close_session(&mut self, target: &BackendSessionRef) -> Result<(), BackendError> {
        if self.fail_close {
            return Err(BackendError::Operation(SafeMessage::from_static("close failed")));
        }
        self.closed.push(target.session().clone());
        Ok(())
    }
}

fn name(text: &str) -> SessionName {
    SessionName::new(text).unwrap()
}

fn size(cols: u16, rows: u16) -> TerminalSize {
    TerminalSize::new(cols, rows).unwrap()
}

fn browser(id: u64) -> ControllerRef {
    ControllerRef::new(ControllerKind::Browser, ControllerId::new(id).unwrap())
}

fn agent(id: u64) -> ControllerRef {
    ControllerRef::new(ControllerKind::Agent, ControllerId::new(id).unwrap())
}

fn gateway() -> SessionGateway<FakeBackend> {
    let mut gateway = SessionGateway::new(FakeBackend::default(), Duration::from_secs(30));
    gateway
        .create_or_find_session(name("demo"), name("backend-demo"), size(80, 24))
        .unwrap();
    gateway
}

#[test]
fn test_should_write_and_resize_when_controller_owns_lease() {
    let mut gateway = gateway();
    let session = name("demo");
    let owner = browser(1);
    let now = Instant::from_nanos(5);
    gateway.acquire_controller(&session, owner, now).unwrap();

    gateway
        .write_input(&session, owner, Bytes::from_static(b"echo ok\n"), now)
        .unwrap();
    gateway.resize(&session, owner, size(100, 30), now).unwrap();
    let backend = gateway.into_backend();

    assert_eq!(backend.writes, [Bytes::from_static(b"echo ok\n")]);
    assert_eq!(backend.resizes, [size(100, 30)]);
}

#[test]
fn test_should_reject_write_from_non_owner() {
    let mut gateway = gateway();
    let session = name("demo");
    let owner = browser(1);
    let other = agent(2);
    let now = Instant::from_nanos(5);
    gateway.acquire_controller(&session, owner, now).unwrap();

    let error = gateway.write_input(&session, other, Bytes::from_static(b"blocked"), now);

    assert!(matches!(
        error,
        Err(SessionGatewayError::Lock(OperationLockError::NotLeaseOwner { owner: Some(current), .. }))
            if current == owner
    ));
    let backend = gateway.into_backend();
    assert!(backend.writes.is_empty());
}

#[test]
fn test_should_allow_read_without_lease() {
    let mut gateway = gateway();
    let snapshot = gateway.read_screen(&name("demo")).unwrap();

    assert_eq!(snapshot.lines(), ["session=backend-demo"]);
}

#[test]
fn test_should_close_registered_session() {
    let mut gateway = gateway();
    let session = name("demo");
    let owner = browser(1);
    let now = Instant::from_nanos(5);
    gateway.acquire_controller(&session, owner, now).unwrap();

    let record = gateway.close_session(&session).unwrap();

    assert_eq!(record.termstage_session().as_str(), "demo");
    assert!(gateway.registry().is_empty());
    assert!(gateway.locks().is_empty());
    let backend = gateway.into_backend();
    assert_eq!(backend.closed, [name("backend-demo")]);
}

#[test]
fn test_should_reject_duplicate_session_before_backend_call() {
    let mut gateway = gateway();
    let error =
        gateway.create_or_find_session(name("demo"), name("other-backend"), size(80, 24));

    assert!(matches!(
        error,
        Err(SessionGatewayError::Registry(SessionRegistryError::AlreadyRegistered { .. }))
    ));
    let backend = gateway.into_backend();
    assert_eq!(backend.created, [name("backend-demo")]);
}

#[test]
fn test_should_keep_session_registered_when_backend_close_fails() {
    let backend = FakeBackend { fail_close: true, ..FakeBackend::default() };
    let mut gateway = SessionGateway::new(backend, Duration::from_secs(30));
    let session = name("demo");
    gateway
        .create_or_find_session(session.clone(), name("backend-demo"), size(80, 24))
        .unwrap();

    let error = gateway.close_session(&session);

    assert!(matches!(error, Err(SessionGatewayError::Backend(_))));
    assert_eq!(gateway.registry().len(), 1);
}

#[test]
fn test_should_reject_missing_session_before_lock() {
    let mut gateway = SessionGateway::new(FakeBackend::default(), Duration::from_secs(30));
    let error = gateway.acquire_controller(&name("missing"), browser(1), Instant::from_nanos(5));

    assert!(matches!(
        error,
        Err(SessionGatewayError::Registry(SessionRegistryError::NotRegistered { .. }))
    ));
}

#[test]
fn test_should_refuse_every_write_without_a_lease() {
    let mut gateway = gateway();
    let session = name("demo");
    let now = Instant::from_nanos(5);

    assert!(gateway.send_text(&session, agent(1), "x", now).is_err());
    assert!(gateway.send_key(&session, agent(1), "Enter", now).is_err());
    assert!(gateway.run_command(&session, agent(1), "ls", now).is_err());
    assert!(gateway.resize(&session, agent(1), size(100, 30), now).is_err());
    assert!(gateway
        .scroll(&session, agent(1), BackendScrollDirection::Up, 3, now)
        .is_err());
    let backend = gateway.into_backend();
    assert!(backend.texts.is_empty());
    assert!(backend.resizes.is_empty());
}

#[test]
fn test_should_refuse_the_owner_after_release_and_after_expiry() {
    let mut gateway = gateway();
    let session = name("demo");
    let now = Instant::from_nanos(5);
    gateway.acquire_controller(&session, agent(1), now).unwrap();
    gateway.send_text(&session, agent(1), "one", now).unwrap();
    gateway.release_controller(&session, agent(1), now).unwrap();
    assert!(gateway.send_text(&session, agent(1), "two", now).is_err());

    gateway.acquire_controller(&session, agent(1), now).unwrap();
    let late = now.checked_add(Duration::from_secs(30)).unwrap();
    assert!(gateway.send_text(&session, agent(1), "three", late).is_err());
    assert_eq!(gateway.into_backend().texts, ["one"]);
}

#[test]
fn test_should_return_the_failure_of_the_backend() {
    let backend = FakeBackend { fail_write: true, ..FakeBackend::default() };
    let mut gateway = SessionGateway::new(backend, Duration::from_secs(30));
    gateway
        .create_or_find_session(name("demo"), name("backend-demo"), size(80, 24))
        .unwrap();
    gateway.acquire_controller(&name("demo"), browser(1), Instant::from_nanos(1)).unwrap();

    let failed = gateway.write_input(
        &name("demo"),
        browser(1),
        Bytes::from_static(b"x"),
        Instant::from_nanos(2),
    );
    assert!(matches!(
        failed,
        Err(SessionGatewayError::Backend(BackendError::UnsupportedInput))
    ));
    assert!(gateway.into_backend().writes.is_empty());
}

#[test]
fn test_should_give_the_adapter_back() {
    let backend = FakeBackend { texts: vec!["mark".to_owned()], ..FakeBackend::default() };
    let mut gateway = SessionGateway::new(backend, Duration::from_secs(30));
    let target = FakeBackend::reference(&name("pane")).unwrap();
    gateway.register_existing_session(name("demo"), target).unwrap();
    gateway.acquire_controller(&name("demo"), agent(1), Instant::from_nanos(1)).unwrap();
    gateway.release_controller(&name("demo"), agent(1), Instant::from_nanos(2)).unwrap();
    assert!(gateway
        .send_text(&name("demo"), agent(1), "no", Instant::from_nanos(3))
        .is_err());
    assert_eq!(gateway.locks().len(), 0);
    let again = gateway.acquire_controller(&name("demo"), agent(1), Instant::from_nanos(4));
    assert_eq!(again.unwrap().epoch(), 1);

    let backend = gateway.into_backend();
    assert_eq!(backend.texts, ["mark"]);
    assert!(backend.created.is_empty());
}

#[test]
fn test_should_serve_until_the_session_ends() {
    let mut gateway = gateway();
    let read = gateway.read_screen(&name("demo"));
    assert_eq!(serving_step(ServingEvent::Read(read)), ServingStep::Continue);
    let read = gateway.read_screen(&name("gone"));
    assert_eq!(serving_step(ServingEvent::Read(read)), ServingStep::StopAfterPause);
    assert_eq!(serving_step(ServingEvent::Interrupted), ServingStep::Stop);
}
