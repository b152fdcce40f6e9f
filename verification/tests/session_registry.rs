use termstage::backend::{BackendKind, BackendPaneId, BackendSessionRef, BackendWindowId};
use termstage::protocol::SessionName;
use termstage::session_registry::{SessionRecord, SessionRegistry, SessionRegistryError};

fn record(name: &str) -> SessionRecord {
    let session = SessionName::new(name).unwrap();
    let backend = BackendSessionRef::new(
        BackendKind::Tmux,
        session.clone(),
        BackendWindowId::new("0").unwrap(),
        BackendPaneId::new("%1").unwrap(),
    );
    SessionRecord::new(session, backend)
}

#[test]
fn test_should_register_and_remove_session() {
    let mut registry = SessionRegistry::new();
    let session = SessionName::new("demo").unwrap();
    registry.register(record("demo")).unwrap();

    assert_eq!(registry.len(), 1);
    assert_eq!(registry.get(&session).unwrap().backend().session().as_str(), "demo");
    assert_eq!(registry.remove(&session).unwrap().termstage_session().as_str(), "demo");
    assert!(registry.is_empty());
}

#[test]
fn test_should_reject_duplicate_session() {
    let mut registry = SessionRegistry::new();
    registry.register(record("demo")).unwrap();
    let error = registry.register(record("demo")).unwrap_err();

    assert!(matches!(
        error,
        SessionRegistryError::AlreadyRegistered { session } if session.as_str() == "demo"
    ));
}

#[test]
fn test_should_reject_missing_session() {
    let registry = SessionRegistry::new();
    let error = registry.get(&SessionName::new("missing").unwrap()).unwrap_err();

    assert!(matches!(
        error,
        SessionRegistryError::NotRegistered { session } if session.as_str() == "missing"
    ));
}

#[test]
fn test_should_keep_other_sessions_when_one_is_removed() {
    let mut registry = SessionRegistry::new();
    registry.register(record("a")).unwrap();
    registry.register(record("b")).unwrap();
    registry.remove(&SessionName::new("a").unwrap()).unwrap();

    assert_eq!(registry.len(), 1);
    assert!(registry.get(&SessionName::new("b").unwrap()).is_ok());
    assert!(registry.remove(&SessionName::new("a").unwrap()).is_err());
}
