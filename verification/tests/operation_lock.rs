use termstage::clock::{Duration, Instant};
use termstage::operation_lock::{
    ControllerId, ControllerKind, ControllerRef, OperationLockError, OperationLockTable,
};
use termstage::protocol::SessionName;

fn browser(id: u64) -> ControllerRef {
    ControllerRef::new(ControllerKind::Browser, ControllerId::new(id).unwrap())
}

fn agent(id: u64) -> ControllerRef {
    ControllerRef::new(ControllerKind::Agent, ControllerId::new(id).unwrap())
}

fn session(name: &str) -> SessionName {
    SessionName::new(name).unwrap()
}

fn at(secs: u64) -> Instant {
    Instant::from_nanos(0).checked_add(Duration::from_secs(secs)).unwrap()
}

#[test]
fn test_should_reject_zero_controller_id() {
    assert!(matches!(
        ControllerId::new(0),
        Err(OperationLockError::InvalidControllerId)
    ));
}

#[test]
fn test_should_acquire_and_validate_owner() {
    let mut table = OperationLockTable::new();
    let session = session("demo");
    let owner = browser(1);
    let now = at(100);

    let lease = table.acquire(&session, owner, now, Duration::from_secs(30)).unwrap();

    assert_eq!(lease.owner(), owner);
    assert_eq!(lease.epoch(), 0);
    assert_eq!(table.validate_owner(&session, owner, now).unwrap(), lease);
}

#[test]
fn test_should_reject_conflicting_owner_until_expired() {
    let mut table = OperationLockTable::new();
    let session = session("demo");
    let first = browser(1);
    let second = agent(2);
    let now = at(100);
    table.acquire(&session, first, now, Duration::from_secs(5)).unwrap();

    let conflict = table.acquire(&session, second, now, Duration::from_secs(5));
    assert!(matches!(
        conflict,
        Err(OperationLockError::LeaseConflict { owner, .. }) if owner == first
    ));

    let replacement =
        table.acquire(&session, second, at(106), Duration::from_secs(5)).unwrap();
    assert_eq!(replacement.owner(), second);
    assert_eq!(replacement.epoch(), 1);
}

#[test]
fn test_should_renew_owner_and_increment_epoch() {
    let mut table = OperationLockTable::new();
    let session = session("demo");
    let owner = browser(1);
    table.acquire(&session, owner, at(100), Duration::from_secs(5)).unwrap();

    let renewed = table.acquire(&session, owner, at(101), Duration::from_secs(5)).unwrap();

    assert_eq!(renewed.owner(), owner);
    assert_eq!(renewed.epoch(), 1);
}

#[test]
fn test_should_release_only_owner() {
    let mut table = OperationLockTable::new();
    let session = session("demo");
    let owner = browser(1);
    let other = agent(2);
    let now = at(100);
    table.acquire(&session, owner, now, Duration::from_secs(5)).unwrap();

    let error = table.release(&session, other, now);
    assert!(matches!(
        error,
        Err(OperationLockError::NotLeaseOwner { owner: Some(current), .. }) if current == owner
    ));

    let released = table.release(&session, owner, now).unwrap();
    assert_eq!(released.owner(), owner);
    assert!(table.is_empty());
}

#[test]
fn test_should_drop_expired_current_lease() {
    let mut table = OperationLockTable::new();
    let session = session("demo");
    let owner = browser(1);
    table.acquire(&session, owner, at(100), Duration::from_secs(1)).unwrap();

    assert_eq!(table.current(&session, at(102)), None);
    assert!(table.is_empty());
}

#[test]
fn test_should_remove_session_lease_state() {
    let mut table = OperationLockTable::new();
    let session = session("demo");
    table.acquire(&session, browser(1), at(100), Duration::from_secs(30)).unwrap();

    table.remove_session(&session);

    assert!(table.is_empty());
}

#[test]
fn test_should_expire_lease_at_its_end() {
    let mut table = OperationLockTable::new();
    let session = session("demo");
    let owner = browser(1);
    let lease = table.acquire(&session, owner, at(100), Duration::from_secs(5)).unwrap();

    assert!(!lease.is_expired_at(at(104)));
    assert!(lease.is_expired_at(at(105)));
    assert!(table.validate_owner(&session, owner, at(104)).is_ok());
    assert!(matches!(
        table.validate_owner(&session, owner, at(105)),
        Err(OperationLockError::NotLeaseOwner { owner: None, .. })
    ));
}

#[test]
fn test_should_go_on_counting_after_release_and_expiry() {
    let mut table = OperationLockTable::new();
    let demo = session("demo");
    let owner = browser(1);
    let ttl = Duration::from_secs(5);
    assert_eq!(table.acquire(&demo, owner, at(1), ttl).unwrap().epoch(), 0);
    assert_eq!(table.acquire(&demo, owner, at(2), ttl).unwrap().epoch(), 1);
    table.release(&demo, owner, at(3)).unwrap();
    assert!(table.is_empty());
    assert_eq!(table.acquire(&demo, agent(2), at(4), ttl).unwrap().epoch(), 2);

    assert!(table.current(&demo, at(9)).is_none());
    assert_eq!(table.acquire(&demo, owner, at(10), ttl).unwrap().epoch(), 3);
    assert!(table.validate_owner(&demo, owner, at(15)).is_err());
    assert_eq!(table.len(), 0);
    table.remove_session(&session("other"));
    assert_eq!(table.acquire(&demo, owner, at(16), ttl).unwrap().epoch(), 4);

    table.remove_session(&demo);
    assert_eq!(table.acquire(&demo, owner, at(17), ttl).unwrap().epoch(), 0);
}

#[test]
fn test_should_keep_sessions_apart() {
    let mut table = OperationLockTable::new();
    table.acquire(&session("a"), browser(1), at(1), Duration::from_secs(5)).unwrap();
    let lease = table.acquire(&session("b"), agent(2), at(1), Duration::from_secs(5)).unwrap();

    assert_eq!(lease.owner(), agent(2));
    assert_eq!(table.len(), 2);
    assert_eq!(table.current(&session("a"), at(2)).unwrap().owner(), browser(1));
}

#[test]
fn test_should_reject_lease_without_end() {
    let mut table = OperationLockTable::new();
    assert!(matches!(
        table.acquire(&session("a"), browser(1), at(1), Duration::from_secs(0)),
        Err(OperationLockError::InvalidLeaseTtl)
    ));
    assert!(table.is_empty());
    assert!(matches!(
        table.acquire(
            &session("a"),
            browser(1),
            at(1),
            Duration::from_secs(u64::MAX)
        ),
        Err(OperationLockError::LeaseExpirationOverflow)
    ));
}

#[test]
fn test_should_count_on_from_the_lease_that_is_there() {
    let mut table = OperationLockTable::new();
    let ttl = Duration::from_secs(5);
    for (i, name) in ["a", "b", "a", "c", "a"].iter().enumerate() {
        let session = session(name);
        let before = table.current(&session, at(1)).map(|lease| lease.epoch());
        let lease = table.acquire(&session, browser(1), at(1), ttl).unwrap();
        assert_eq!(lease.epoch(), before.map_or(0, |epoch| epoch + 1), "{i}");
    }
    assert_eq!(table.len(), 3);
}
