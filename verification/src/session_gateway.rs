//! Backend-session gateway.
//!
//! The gateway owns the session registry and the operation lock table. Browser
//! and semantic API surfaces call it before any terminal write reaches a backend
//! adapter.

use bytes::Bytes;
use vstd::prelude::*;

use crate::backend::{
    BackendAdapter, BackendCall, BackendError, BackendScreenSnapshot, BackendScrollDirection,
    BackendSessionRef, SessionRefView,
};
use crate::clock::{Duration, Instant};
use crate::operation_lock::{
    ControllerRef, Epochs, Leases, LockView, OperationLease, OperationLockError,
    OperationLockTable,
};
use crate::protocol::{SessionName, TerminalSize};
use crate::session_registry::{Registered, SessionRecord, SessionRegistry, SessionRegistryError};

verus! {

/// Backend-session gateway failure.
#[derive(Debug)]
pub enum SessionGatewayError {
    /// Backend operation failed.
    Backend(BackendError),
    /// Session registry operation failed.
    Registry(SessionRegistryError),
    /// Operation lock failed.
    Lock(OperationLockError),
}

impl SessionGatewayError {
    /// Tells whether the error says that `session` is not registered.
    pub open spec fn missing(self, session: Seq<char>) -> bool {
        self matches SessionGatewayError::Registry(error) && error.missing(session)
    }

    /// Tells whether the error says that `session` is registered.
    pub open spec fn already(self, session: Seq<char>) -> bool {
        self matches SessionGatewayError::Registry(error) && error.already(session)
    }
}

/// The state of a [`SessionGateway`].
pub struct GatewayView {
    /// Registered sessions.
    pub sessions: Registered,
    /// Write leases.
    pub leases: Leases,
    /// Numbers of the next write leases.
    pub epochs: Epochs,
    /// How long a write lease lasts.
    pub ttl: nat,
    /// What the backend was asked to do.
    pub calls: Seq<BackendCall>,
}

impl GatewayView {
    /// The write leases and the numbers of the next ones.
    pub open spec fn locks(self) -> LockView {
        LockView { leases: self.leases, epochs: self.epochs }
    }

    /// Tells whether `controller` may write to `session` at `now`.
    pub open spec fn may_write(
        self,
        session: Seq<char>,
        controller: ControllerRef,
        now: nat,
    ) -> bool {
        &&& self.sessions.dom().contains(session)
        &&& crate::operation_lock::leased(self.leases, session, now)
        &&& self.leases[session].owner == controller
    }

    /// The state after the lease of `session` was looked at.
    pub open spec fn inspected(self, session: Seq<char>, now: nat) -> GatewayView {
        if self.sessions.dom().contains(session) {
            GatewayView {
                leases: crate::operation_lock::dropped_if_expired(self.leases, session, now),
                ..self
            }
        } else {
            self
        }
    }

    /// The state after `session` was closed: it and its leases are forgotten.
    pub open spec fn without_session(self, session: Seq<char>) -> GatewayView {
        GatewayView {
            sessions: self.sessions.remove(session),
            leases: self.leases.remove(session),
            epochs: self.epochs.remove(session),
            ..self
        }
    }

    /// The state after the backend was asked to do `call`.
    pub open spec fn called(self, call: BackendCall) -> GatewayView {
        GatewayView { calls: self.calls.push(call), ..self }
    }

    /// The refusal of a controller that may not write to `session`.
    pub open spec fn refusal(
        self,
        session: Seq<char>,
        controller: ControllerRef,
        now: nat,
        error: SessionGatewayError,
    ) -> bool {
        if !self.sessions.dom().contains(session) {
            error.missing(session)
        } else {
            error matches SessionGatewayError::Lock(lock) && crate::operation_lock::not_owner(
                self.leases,
                session,
                controller,
                now,
                lock,
            )
        }
    }

    /// Outcome of a write to `session`: what is asked of the backend is `call`
    /// of the pane that is registered, and it is asked only for the lease owner. What
    /// the backend fails with is what comes back.
    pub open spec fn written(
        self,
        session: Seq<char>,
        controller: ControllerRef,
        now: nat,
        call: spec_fn(SessionRefView, Result<(), BackendError>) -> BackendCall,
        r: Result<OperationLease, SessionGatewayError>,
        after: GatewayView,
    ) -> bool {
        if self.may_write(session, controller, now) {
            let answer = after.calls.last().outcome();
            &&& after == self.called(call(self.sessions[session], answer))
            &&& match answer {
                Ok(_) => r matches Ok(lease) && lease@ == self.leases[session],
                Err(error) => r matches Err(failure) && failure == SessionGatewayError::Backend(
                    error,
                ),
            }
        } else {
            &&& after == self.inspected(session, now)
            &&& r matches Err(error) && self.refusal(session, controller, now, error)
        }
    }
}

impl GatewayView {
    /// Outcome of creating or finding the backend session `name` for `session`. The
    /// backend is not asked where the id is taken.
    pub open spec fn session_created(
        self,
        session: Seq<char>,
        name: Seq<char>,
        size: TerminalSize,
        r: Result<(), SessionGatewayError>,
        after: GatewayView,
    ) -> bool {
        if self.sessions.dom().contains(session) {
            &&& after == self
            &&& r matches Err(error) && error.already(session)
        } else {
            let found = match after.calls.last() {
                BackendCall::CreateOrFind { found, .. } => found,
                _ => Err(BackendError::Unavailable),
            };
            let asked = self.called(BackendCall::CreateOrFind { session: name, size, found });
            match found {
                Ok(target) => r is Ok && after == (GatewayView {
                    sessions: self.sessions.insert(session, target),
                    ..asked
                }),
                Err(failure) => {
                    &&& r matches Err(error) && error == SessionGatewayError::Backend(failure)
                    &&& after == asked
                },
            }
        }
    }

    /// Outcome of registering a pane for `session`.
    pub open spec fn session_registered(
        self,
        session: Seq<char>,
        target: SessionRefView,
        r: Result<(), SessionGatewayError>,
        after: GatewayView,
    ) -> bool {
        if self.sessions.dom().contains(session) {
            &&& after == self
            &&& r matches Err(error) && error.already(session)
        } else {
            &&& after == (GatewayView { sessions: self.sessions.insert(session, target), ..self })
            &&& r is Ok
        }
    }

    /// Outcome of acquiring or renewing the write lease for `session`.
    pub open spec fn controller_acquired(
        self,
        session: Seq<char>,
        controller: ControllerRef,
        now: nat,
        r: Result<OperationLease, SessionGatewayError>,
        after: GatewayView,
    ) -> bool {
        &&& after == (GatewayView { leases: after.leases, epochs: after.epochs, ..self })
        &&& if !self.sessions.dom().contains(session) {
            &&& after == self
            &&& r matches Err(error) && error.missing(session)
        } else {
            match r {
                Ok(lease) => crate::operation_lock::acquired(
                    self.locks(),
                    session,
                    controller,
                    now,
                    self.ttl,
                    Ok(lease),
                    after.locks(),
                ),
                Err(SessionGatewayError::Lock(error)) => crate::operation_lock::acquired(
                    self.locks(),
                    session,
                    controller,
                    now,
                    self.ttl,
                    Err(error),
                    after.locks(),
                ),
                Err(_) => false,
            }
        }
    }

    /// Outcome of releasing the write lease for `session`.
    pub open spec fn controller_released(
        self,
        session: Seq<char>,
        controller: ControllerRef,
        now: nat,
        r: Result<OperationLease, SessionGatewayError>,
        after: GatewayView,
    ) -> bool {
        if self.may_write(session, controller, now) {
            &&& r matches Ok(lease) && lease@ == self.leases[session]
            &&& after == (GatewayView { leases: self.leases.remove(session), ..self })
        } else {
            &&& r matches Err(error) && self.refusal(session, controller, now, error)
            &&& after == self.inspected(session, now)
        }
    }

    /// Outcome of closing `session`. One that the backend cannot close stays
    /// registered.
    pub open spec fn session_closed(
        self,
        session: Seq<char>,
        r: Result<SessionRecord, SessionGatewayError>,
        after: GatewayView,
    ) -> bool {
        let answer = after.calls.last().outcome();
        let asked = self.called(BackendCall::Close { target: self.sessions[session], answer });
        if self.sessions.dom().contains(session) {
            match answer {
                Ok(_) => {
                    &&& r matches Ok(record) && record@ == (session, self.sessions[session])
                    &&& after == asked.without_session(session)
                },
                Err(failure) => {
                    &&& r matches Err(error) && error == SessionGatewayError::Backend(failure)
                    &&& after == asked
                },
            }
        } else {
            &&& after == self
            &&& r matches Err(error) && error.missing(session)
        }
    }
}

/// Gateway that binds sessions, operation locks, and a backend adapter.
pub struct SessionGateway<B> {
    backend: B,
    registry: SessionRegistry,
    locks: OperationLockTable,
    lease_ttl: Duration,
}

impl<B: BackendAdapter> View for SessionGateway<B> {
    type V = GatewayView;

    closed spec fn view(&self) -> GatewayView {
        GatewayView {
            sessions: self.registry@,
            leases: self.locks@.leases,
            epochs: self.locks@.epochs,
            ttl: self.lease_ttl@,
            calls: self.backend.history(),
        }
    }
}

impl<B: BackendAdapter> SessionGateway<B> {
    /// The backend adapter that the gateway holds.
    pub closed spec fn adapter(&self) -> B {
        self.backend
    }

    /// Creates a backend-session gateway.
    #[must_use]
    pub fn new(backend: B, lease_ttl: Duration) -> (r: Self)
        ensures
            r@ == (GatewayView {
                sessions: Registered::empty(),
                leases: Leases::empty(),
                epochs: Epochs::empty(),
                ttl: lease_ttl@,
                calls: backend.history(),
            }),
            r.adapter() == backend,
    {
        SessionGateway {
            backend,
            registry: SessionRegistry::new(),
            locks: OperationLockTable::new(),
            lease_ttl,
        }
    }

    /// Creates or finds a backend session and registers it under a session id
    /// that is not taken.
    ///
    /// The backend is not asked where the id is taken.
    pub fn create_or_find_session(
        &mut self,
        termstage_session: SessionName,
        backend_session: SessionName,
        size: TerminalSize,
    ) -> (r: Result<(), SessionGatewayError>)
        ensures
            old(self)@.session_created(
                termstage_session@,
                backend_session@,
                size,
                r,
                final(self)@,
            ),
            old(self)@.sessions.dom().contains(termstage_session@) ==> final(self).adapter() == old(
                self,
            ).adapter(),
    {
        if self.registry.get(&termstage_session).is_ok() {
            return Err(
                SessionGatewayError::Registry(
                    SessionRegistryError::AlreadyRegistered { session: termstage_session },
                ),
            );
        }
        let backend_ref = match self.backend.create_or_find_session(&backend_session, size) {
            Ok(backend_ref) => backend_ref,
            Err(error) => return Err(SessionGatewayError::Backend(error)),
        };
        let registered = self.registry.register(SessionRecord::new(termstage_session, backend_ref));
        match registered {
            Ok(_) => Ok(()),
            Err(error) => Err(SessionGatewayError::Registry(error)),
        }
    }

    /// Registers a backend pane under a session id that is not taken.
    pub fn register_existing_session(
        &mut self,
        termstage_session: SessionName,
        backend_ref: BackendSessionRef,
    ) -> (r: Result<(), SessionGatewayError>)
        ensures
            final(self).adapter() == old(self).adapter(),
            old(self)@.session_registered(termstage_session@, backend_ref@, r, final(self)@),
    {
        match self.registry.register(SessionRecord::new(termstage_session, backend_ref)) {
            Ok(_) => Ok(()),
            Err(error) => Err(SessionGatewayError::Registry(error)),
        }
    }

    /// Acquires or renews the write lease for a registered session.
    pub fn acquire_controller(
        &mut self,
        session: &SessionName,
        controller: ControllerRef,
        now: Instant,
    ) -> (r: Result<OperationLease, SessionGatewayError>)
        ensures
            final(self).adapter() == old(self).adapter(),
            old(self)@.controller_acquired(session@, controller, now@, r, final(self)@),
    {
        match self.registry.get(session) {
            Ok(_) => {},
            Err(error) => return Err(SessionGatewayError::Registry(error)),
        }
        match self.locks.acquire(session, controller, now, self.lease_ttl) {
            Ok(lease) => Ok(lease),
            Err(error) => Err(SessionGatewayError::Lock(error)),
        }
    }

    /// Releases the write lease for a registered session.
    pub fn release_controller(
        &mut self,
        session: &SessionName,
        controller: ControllerRef,
        now: Instant,
    ) -> (r: Result<OperationLease, SessionGatewayError>)
        ensures
            final(self).adapter() == old(self).adapter(),
            old(self)@.controller_released(session@, controller, now@, r, final(self)@),
    {
        match self.registry.get(session) {
            Ok(_) => {},
            Err(error) => return Err(SessionGatewayError::Registry(error)),
        }
        match self.locks.release(session, controller, now) {
            Ok(lease) => Ok(lease),
            Err(error) => Err(SessionGatewayError::Lock(error)),
        }
    }

    fn authorize(&mut self, session: &SessionName, controller: ControllerRef, now: Instant) -> (r:
        Result<(BackendSessionRef, OperationLease), SessionGatewayError>)
        ensures
            final(self).backend == old(self).backend,
            if old(self)@.may_write(session@, controller, now@) {
                &&& r matches Ok(granted) && granted.0@ == old(self)@.sessions[session@]
                    && granted.1@ == old(self)@.leases[session@]
                &&& final(self)@ == old(self)@
            } else {
                &&& r matches Err(error) && old(self)@.refusal(session@, controller, now@, error)
                &&& final(self)@ == old(self)@.inspected(session@, now@)
            },
    {
        let target = match self.registry.get(session) {
            Ok(record) => record.backend().clone(),
            Err(error) => return Err(SessionGatewayError::Registry(error)),
        };
        match self.locks.validate_owner(session, controller, now) {
            Ok(lease) => Ok((target, lease)),
            Err(error) => Err(SessionGatewayError::Lock(error)),
        }
    }

    /// Writes terminal bytes to the backend when `controller` owns the lease.
    pub fn write_input(
        &mut self,
        session: &SessionName,
        controller: ControllerRef,
        bytes: Bytes,
        now: Instant,
    ) -> (r: Result<OperationLease, SessionGatewayError>)
        ensures
            old(self)@.written(
                session@,
                controller,
                now@,
                |target: SessionRefView, answer: Result<(), BackendError>|
                    BackendCall::WriteInput { target, bytes: crate::octets::octets(bytes), answer },
                r,
                final(self)@,
            ),
            !old(self)@.may_write(session@, controller, now@) ==> final(self).adapter() == old(
                self,
            ).adapter(),
    {
        let (target, lease) = match self.authorize(session, controller, now) {
            Ok(granted) => granted,
            Err(error) => return Err(error),
        };
        match self.backend.write_input(&target, bytes) {
            Ok(_) => Ok(lease),
            Err(error) => Err(SessionGatewayError::Backend(error)),
        }
    }

    /// Sends literal text to the backend when `controller` owns the lease.
    pub fn send_text(
        &mut self,
        session: &SessionName,
        controller: ControllerRef,
        text: &str,
        now: Instant,
    ) -> (r: Result<OperationLease, SessionGatewayError>)
        ensures
            old(self)@.written(
                session@,
                controller,
                now@,
                |target: SessionRefView, answer: Result<(), BackendError>|
                    BackendCall::SendText { target, text: text@, answer },
                r,
                final(self)@,
            ),
            !old(self)@.may_write(session@, controller, now@) ==> final(self).adapter() == old(
                self,
            ).adapter(),
    {
        let (target, lease) = match self.authorize(session, controller, now) {
            Ok(granted) => granted,
            Err(error) => return Err(error),
        };
        match self.backend.send_text(&target, text) {
            Ok(_) => Ok(lease),
            Err(error) => Err(SessionGatewayError::Backend(error)),
        }
    }

    /// Sends one key token to the backend when `controller` owns the lease.
    pub fn send_key(
        &mut self,
        session: &SessionName,
        controller: ControllerRef,
        key: &str,
        now: Instant,
    ) -> (r: Result<OperationLease, SessionGatewayError>)
        ensures
            old(self)@.written(
                session@,
                controller,
                now@,
                |target: SessionRefView, answer: Result<(), BackendError>| BackendCall::SendKey { target, key: key@, answer },
                r,
                final(self)@,
            ),
            !old(self)@.may_write(session@, controller, now@) ==> final(self).adapter() == old(
                self,
            ).adapter(),
    {
        let (target, lease) = match self.authorize(session, controller, now) {
            Ok(granted) => granted,
            Err(error) => return Err(error),
        };
        match self.backend.send_key(&target, key) {
            Ok(_) => Ok(lease),
            Err(error) => Err(SessionGatewayError::Backend(error)),
        }
    }

    /// Submits a command to the backend when `controller` owns the lease.
    pub fn run_command(
        &mut self,
        session: &SessionName,
        controller: ControllerRef,
        command: &str,
        now: Instant,
    ) -> (r: Result<OperationLease, SessionGatewayError>)
        ensures
            old(self)@.written(
                session@,
                controller,
                now@,
                |target: SessionRefView, answer: Result<(), BackendError>|
                    BackendCall::RunCommand { target, command: command@, answer },
                r,
                final(self)@,
            ),
            !old(self)@.may_write(session@, controller, now@) ==> final(self).adapter() == old(
                self,
            ).adapter(),
    {
        let (target, lease) = match self.authorize(session, controller, now) {
            Ok(granted) => granted,
            Err(error) => return Err(error),
        };
        match self.backend.run_command(&target, command) {
            Ok(_) => Ok(lease),
            Err(error) => Err(SessionGatewayError::Backend(error)),
        }
    }

    /// Resizes the backend pane when `controller` owns the lease.
    pub fn resize(
        &mut self,
        session: &SessionName,
        controller: ControllerRef,
        size: TerminalSize,
        now: Instant,
    ) -> (r: Result<OperationLease, SessionGatewayError>)
        ensures
            old(self)@.written(
                session@,
                controller,
                now@,
                |target: SessionRefView, answer: Result<(), BackendError>| BackendCall::Resize { target, size, answer },
                r,
                final(self)@,
            ),
            !old(self)@.may_write(session@, controller, now@) ==> final(self).adapter() == old(
                self,
            ).adapter(),
    {
        let (target, lease) = match self.authorize(session, controller, now) {
            Ok(granted) => granted,
            Err(error) => return Err(error),
        };
        match self.backend.resize(&target, size) {
            Ok(_) => Ok(lease),
            Err(error) => Err(SessionGatewayError::Backend(error)),
        }
    }

    /// Scrolls the backend pane when `controller` owns the lease.
    pub fn scroll(
        &mut self,
        session: &SessionName,
        controller: ControllerRef,
        direction: BackendScrollDirection,
        amount: u16,
        now: Instant,
    ) -> (r: Result<OperationLease, SessionGatewayError>)
        ensures
            old(self)@.written(
                session@,
                controller,
                now@,
                |target: SessionRefView, answer: Result<(), BackendError>|
                    BackendCall::Scroll { target, direction, amount, answer },
                r,
                final(self)@,
            ),
            !old(self)@.may_write(session@, controller, now@) ==> final(self).adapter() == old(
                self,
            ).adapter(),
    {
        let (target, lease) = match self.authorize(session, controller, now) {
            Ok(granted) => granted,
            Err(error) => return Err(error),
        };
        match self.backend.scroll(&target, direction, amount) {
            Ok(_) => Ok(lease),
            Err(error) => Err(SessionGatewayError::Backend(error)),
        }
    }

    /// Reads the backend pane screen. Read operations do not require ownership.
    pub fn read_screen(&mut self, session: &SessionName) -> (r: Result<
        BackendScreenSnapshot,
        SessionGatewayError,
    >)
        ensures
            if old(self)@.sessions.dom().contains(session@) {
                &&& final(self)@ == old(self)@.called(
                    BackendCall::ReadScreen {
                        target: old(self)@.sessions[session@],
                        screen: match r {
                            Ok(snapshot) => Ok(snapshot@),
                            Err(error) => Err(error->Backend_0),
                        },
                    },
                )
                &&& r matches Err(error) ==> error is Backend
            } else {
                &&& final(self)@ == old(self)@
                &&& final(self).adapter() == old(self).adapter()
                &&& r matches Err(error) && error.missing(session@)
            },
    {
        let target = match self.registry.get(session) {
            Ok(record) => record.backend().clone(),
            Err(error) => return Err(SessionGatewayError::Registry(error)),
        };
        match self.backend.read_screen(&target) {
            Ok(snapshot) => Ok(snapshot),
            Err(error) => Err(SessionGatewayError::Backend(error)),
        }
    }

    /// Reports whether a backend-native local client is attached.
    pub fn has_native_client(&mut self, session: &SessionName) -> (r: Result<
        bool,
        SessionGatewayError,
    >)
        ensures
            if old(self)@.sessions.dom().contains(session@) {
                &&& final(self)@ == old(self)@.called(
                    BackendCall::HasNativeClient {
                        target: old(self)@.sessions[session@],
                        attached: match r {
                            Ok(attached) => Ok(attached),
                            Err(error) => Err(error->Backend_0),
                        },
                    },
                )
                &&& r matches Err(error) ==> error is Backend
            } else {
                &&& final(self)@ == old(self)@
                &&& final(self).adapter() == old(self).adapter()
                &&& r matches Err(error) && error.missing(session@)
            },
    {
        let target = match self.registry.get(session) {
            Ok(record) => record.backend().clone(),
            Err(error) => return Err(SessionGatewayError::Registry(error)),
        };
        match self.backend.has_native_client(&target) {
            Ok(attached) => Ok(attached),
            Err(error) => Err(SessionGatewayError::Backend(error)),
        }
    }

    /// Closes a registered backend session and forgets it and its lease.
    ///
    /// A session that the backend cannot close stays registered.
    pub fn close_session(&mut self, session: &SessionName) -> (r: Result<
        SessionRecord,
        SessionGatewayError,
    >)
        ensures
            old(self)@.session_closed(session@, r, final(self)@),
            !old(self)@.sessions.dom().contains(session@) ==> final(self).adapter() == old(
                self,
            ).adapter(),
    {
        let record = match self.registry.get(session) {
            Ok(record) => record.clone(),
            Err(error) => return Err(SessionGatewayError::Registry(error)),
        };
        match self.backend.close_session(record.backend()) {
            Ok(_) => {},
            Err(error) => return Err(SessionGatewayError::Backend(error)),
        }
        match self.registry.remove(session) {
            Ok(_) => {},
            Err(error) => return Err(SessionGatewayError::Registry(error)),
        }
        self.locks.remove_session(session);
        Ok(record)
    }

    /// Returns a shared reference to the gateway registry.
    #[must_use]
    pub fn registry(&self) -> (r: &SessionRegistry)
        ensures
            r@ == self@.sessions,
    {
        &self.registry
    }

    /// Returns a shared reference to the gateway lock table.
    #[must_use]
    pub fn locks(&self) -> (r: &OperationLockTable)
        ensures
            r@ == self@.locks(),
    {
        &self.locks
    }

    /// Consumes the gateway and returns its backend adapter.
    #[must_use]
    pub fn into_backend(self) -> (r: B)
        ensures
            r == self.adapter(),
            r.history() == self@.calls,
    {
        self.backend
    }
}

/// What happens while a session is served.
#[derive(Debug)]
pub enum ServingEvent {
    /// The user interrupts.
    Interrupted,
    /// The screen of the session was read.
    Read(Result<BackendScreenSnapshot, SessionGatewayError>),
}

/// What to do next while a session is served.
#[derive(Debug, Clone, Copy, PartialEq, Eq, Structural)]
pub enum ServingStep {
    /// Go on.
    Continue,
    /// Stop at once.
    Stop,
    /// Stop after a pause, in which browsers learn that the session has ended.
    StopAfterPause,
}

/// What to do next: go on until the user interrupts, or until the session cannot be read
/// any more.
pub open spec fn next_serving_step(event: ServingEvent) -> ServingStep {
    match event {
        ServingEvent::Interrupted => ServingStep::Stop,
        ServingEvent::Read(Ok(_)) => ServingStep::Continue,
        ServingEvent::Read(Err(_)) => ServingStep::StopAfterPause,
    }
}

/// Decides whether to go on serving a session: until the user interrupts, or until the
/// session cannot be read any more.
pub fn serving_step(event: ServingEvent) -> (r: ServingStep)
    ensures
        r == next_serving_step(event),
{
    match event {
        ServingEvent::Interrupted => ServingStep::Stop,
        ServingEvent::Read(Ok(_)) => ServingStep::Continue,
        ServingEvent::Read(Err(_)) => ServingStep::StopAfterPause,
    }
}

} // verus!
