//! Browser connections to a backend session gateway.
//!
//! A connection decides what a browser is sent; whoever drives it owns the
//! socket, reports what arrives on it and sends what it is told to.

use bytes::Bytes;
use vstd::prelude::*;

use crate::backend::{BackendAdapter, BackendCall, BackendError, SnapshotView};
use crate::clock::Instant;
use crate::operation_lock::{ControllerId, ControllerKind, ControllerRef, LeaseView, OperationLockError};
use crate::protocol::{
    ClientControlMessage, ErrorCode, LeaseOwner, SafeMessage, ServerControlMessage,
    ServerMessageView, SessionName, TerminalSize,
};
use crate::runtime::ClientId;
use crate::screen::{GatewayViewport, ViewportView};
use crate::session_gateway::{GatewayView, SessionGateway, SessionGatewayError};
use crate::tunnel::TunnelTerminalPayload;

verus! {

/// How long a browser may stay silent, in seconds.
pub const CLIENT_HEARTBEAT_TIMEOUT_SECS: u64 = 90;

/// Code of a WebSocket close frame.
#[derive(Debug, Clone, Copy, PartialEq, Eq, Structural)]
pub enum CloseCode {
    /// Normal closure.
    Normal,
    /// Protocol error.
    Protocol,
}

/// WebSocket close frame.
#[derive(Debug, Clone, Copy, PartialEq, Eq)]
pub struct CloseFrame {
    /// Code.
    pub code: CloseCode,
    /// Reason.
    pub reason: &'static str,
}

/// WebSocket message to a browser.
#[derive(Debug, PartialEq, Eq)]
pub enum SocketMessage {
    /// Control frame, sent as text.
    Control(ServerControlMessage),
    /// Terminal bytes.
    Binary(Bytes),
    /// Ping.
    Ping,
    /// Pong with the payload of the ping.
    Pong(Bytes),
    /// Close frame.
    Close(CloseFrame),
}

/// The contents of a [`SocketMessage`].
#[allow(inconsistent_fields)]
pub enum SocketMessageView {
    Control(ServerMessageView),
    Binary(Seq<u8>),
    Ping,
    Pong(Seq<u8>),
    Close { code: CloseCode, reason: Seq<char> },
}

impl View for SocketMessage {
    type V = SocketMessageView;

    open spec fn view(&self) -> SocketMessageView {
        match *self {
            SocketMessage::Control(message) => SocketMessageView::Control(message@),
            SocketMessage::Binary(bytes) => SocketMessageView::Binary(
                crate::octets::octets(bytes),
            ),
            SocketMessage::Ping => SocketMessageView::Ping,
            SocketMessage::Pong(bytes) => SocketMessageView::Pong(crate::octets::octets(bytes)),
            SocketMessage::Close(frame) => SocketMessageView::Close {
                code: frame.code,
                reason: frame.reason@,
            },
        }
    }
}

/// One message to send.
#[derive(Debug, PartialEq, Eq)]
pub struct SocketSend {
    /// Message.
    pub message: SocketMessage,
    /// Whether the connection ends where the message cannot be sent.
    pub required: bool,
}

/// What to send to a browser, in order, and whether the connection ends then.
#[derive(Debug, PartialEq, Eq)]
pub struct SocketPlan {
    /// Messages to send.
    pub sends: Vec<SocketSend>,
    /// Whether the connection ends.
    pub close: bool,
}

/// The contents of a [`SocketPlan`].
#[verifier::ext_equal]
pub struct PlanView {
    /// Messages to send, each with whether it must be sent.
    pub sends: Seq<(SocketMessageView, bool)>,
    /// Whether the connection ends.
    pub close: bool,
}

impl View for SocketPlan {
    type V = PlanView;

    open spec fn view(&self) -> PlanView {
        PlanView {
            sends: self.sends@.map_values(|send: SocketSend| (send.message@, send.required)),
            close: self.close,
        }
    }
}

impl PlanView {
    /// Nothing to send.
    pub open spec fn nothing() -> PlanView {
        PlanView { sends: seq![], close: false }
    }

    /// The plan that sends one more message, which need not arrive.
    pub open spec fn tell(self, message: SocketMessageView) -> PlanView {
        PlanView { sends: self.sends.push((message, false)), ..self }
    }

    /// The plan that sends one more message, which must arrive.
    pub open spec fn must(self, message: SocketMessageView) -> PlanView {
        PlanView { sends: self.sends.push((message, true)), ..self }
    }

    /// The plan that ends the connection after its messages.
    pub open spec fn end(self) -> PlanView {
        PlanView { close: true, ..self }
    }

    /// This plan, followed by `next` unless it ends the connection.
    pub open spec fn followed_by(self, next: PlanView) -> PlanView {
        if self.close {
            self
        } else {
            PlanView { sends: self.sends + next.sends, close: next.close }
        }
    }
}

impl SocketPlan {
    /// Nothing to send.
    pub fn nothing() -> (r: Self)
        ensures
            r@ == PlanView::nothing(),
    {
        let r = SocketPlan { sends: Vec::new(), close: false };
        proof {
            assert(r@ =~= PlanView::nothing());
        }
        r
    }

    /// Adds a message that need not arrive.
    pub fn tell(self, message: SocketMessage) -> (r: Self)
        ensures
            r@ == self@.tell(message@),
    {
        let mut sends = self.sends;
        sends.push(SocketSend { message, required: false });
        let r = SocketPlan { sends, close: self.close };
        proof {
            assert(r@ =~= self@.tell(message@));
        }
        r
    }

    /// Adds a message that must arrive.
    pub fn must(self, message: SocketMessage) -> (r: Self)
        ensures
            r@ == self@.must(message@),
    {
        let mut sends = self.sends;
        sends.push(SocketSend { message, required: true });
        let r = SocketPlan { sends, close: self.close };
        proof {
            assert(r@ =~= self@.must(message@));
        }
        r
    }

    /// Ends the connection after the messages.
    pub fn end(self) -> (r: Self)
        ensures
            r@ == self@.end(),
    {
        SocketPlan { sends: self.sends, close: true }
    }

    /// Adds what `next` sends, unless the connection ends before it.
    pub fn followed_by(self, next: SocketPlan) -> (r: Self)
        ensures
            r@ == self@.followed_by(next@),
    {
        if self.close {
            return self;
        }
        let mut sends = self.sends;
        let mut more = next.sends;
        sends.append(&mut more);
        let r = SocketPlan { sends, close: next.close };
        proof {
            assert(r@ =~= self@.followed_by(next@));
        }
        r
    }

    /// Closes the connection with `frame`.
    pub fn closing(frame: CloseFrame) -> (r: Self)
        ensures
            r@ == closing(frame),
    {
        SocketPlan::nothing().tell(SocketMessage::Close(frame)).end()
    }
}

/// The plan that closes the connection with `frame`.
pub open spec fn closing(frame: CloseFrame) -> PlanView {
    PlanView::nothing().tell(
        SocketMessageView::Close { code: frame.code, reason: frame.reason@ },
    ).end()
}

/// Tells whether `frame` has the given code and reason.
pub open spec fn is_close(frame: CloseFrame, code: CloseCode, reason: Seq<char>) -> bool {
    frame.code == code && frame.reason@ == reason
}

/// The close frame after an invalid frame of the browser.
pub fn protocol_close() -> (r: CloseFrame)
    ensures
        is_close(r, CloseCode::Protocol, "invalid control frame"@),
{
    CloseFrame { code: CloseCode::Protocol, reason: "invalid control frame" }
}

/// The close frame where the session is gone.
pub fn runtime_unavailable_close() -> (r: CloseFrame)
    ensures
        is_close(r, CloseCode::Normal, "session ended"@),
{
    CloseFrame { code: CloseCode::Normal, reason: "session ended" }
}

/// The close frame for a silent browser.
pub fn client_timeout_close() -> (r: CloseFrame)
    ensures
        is_close(r, CloseCode::Normal, "client heartbeat timeout"@),
{
    CloseFrame { code: CloseCode::Normal, reason: "client heartbeat timeout" }
}

/// The plan that closes the connection with the given code and reason.
pub open spec fn closed_with(code: CloseCode, reason: Seq<char>) -> PlanView {
    PlanView::nothing().tell(SocketMessageView::Close { code, reason }).end()
}

/// The plan where the session is gone.
pub open spec fn session_gone() -> PlanView {
    closed_with(CloseCode::Normal, "session ended"@)
}

/// An error control frame.
pub open spec fn error_message(code: ErrorCode, message: Seq<char>) -> SocketMessageView {
    SocketMessageView::Control(ServerMessageView::Error { code, message })
}

/// The plan after an invalid frame of the browser.
pub open spec fn rejected_frame() -> PlanView {
    PlanView::nothing().tell(
        error_message(ErrorCode::Protocol, "invalid control frame"@),
    ).tell(
        SocketMessageView::Close {
            code: CloseCode::Protocol,
            reason: "invalid control frame"@,
        },
    ).end()
}

/// Rejects an invalid frame of the browser and ends the connection.
pub fn reject_frame() -> (r: SocketPlan)
    ensures
        r@ == rejected_frame(),
{
    SocketPlan::nothing().tell(
        SocketMessage::Control(
            ServerControlMessage::Error {
                code: ErrorCode::Protocol,
                message: SafeMessage::from_static("invalid control frame"),
            },
        ),
    ).tell(SocketMessage::Close(protocol_close())).end()
}

/// Reports a failed backend operation.
fn runtime_error_plan() -> (r: SocketPlan)
    ensures
        r@ == PlanView::nothing().tell(
            error_message(ErrorCode::Runtime, "backend operation failed"@),
        ),
{
    SocketPlan::nothing().tell(
        SocketMessage::Control(
            ServerControlMessage::Error {
                code: ErrorCode::Runtime,
                message: SafeMessage::from_static("backend operation failed"),
            },
        ),
    )
}

/// The controller that a browser client is.
pub fn controller_from_client(client_id: ClientId) -> (r: Result<ControllerRef, OperationLockError>)
    ensures
        match r {
            Ok(controller) => client_id@ != 0 && controller@.0 == ControllerKind::Browser
                && controller@.1@ == client_id@,
            Err(error) => client_id@ == 0 && error is InvalidControllerId,
        },
{
    match ControllerId::new(client_id.get()) {
        Ok(id) => Ok(ControllerRef::new(ControllerKind::Browser, id)),
        Err(error) => Err(error),
    }
}

/// The lease owner as browsers are told.
pub open spec fn owner_of(controller: ControllerRef) -> LeaseOwner {
    match controller@.0 {
        ControllerKind::Browser => LeaseOwner::Browser,
        ControllerKind::Agent => LeaseOwner::Agent,
        ControllerKind::Transport => LeaseOwner::Terminal,
    }
}

/// Returns the lease owner as browsers are told.
pub fn lease_owner_from_controller(controller: ControllerRef) -> (r: LeaseOwner)
    ensures
        r == owner_of(controller),
{
    match controller.kind() {
        ControllerKind::Browser => LeaseOwner::Browser,
        ControllerKind::Agent => LeaseOwner::Agent,
        ControllerKind::Transport => LeaseOwner::Terminal,
    }
}

/// What a browser knows about terminal control.
#[derive(Debug, Clone, Copy, PartialEq, Eq, Structural)]
pub struct GatewayBrowserLease {
    /// Whether the browser may write.
    pub owns_lease: bool,
    /// Who may write.
    pub owner: LeaseOwner,
    /// Number of the lease.
    pub epoch: u64,
    /// Whether a native terminal client is attached.
    pub native_attached: bool,
}

/// What the backend answered to the question for native clients that is call
/// `i`.
pub open spec fn native_answer(calls: Seq<BackendCall>, i: int) -> Result<bool, BackendError> {
    if 0 <= i < calls.len() {
        match calls[i] {
            BackendCall::HasNativeClient { attached, .. } => attached,
            _ => Err(BackendError::Unavailable),
        }
    } else {
        Err(BackendError::Unavailable)
    }
}

/// The screen that the backend gave in call `i`.
pub open spec fn screen_answer(calls: Seq<BackendCall>, i: int) -> Result<
    SnapshotView,
    BackendError,
> {
    if 0 <= i < calls.len() {
        match calls[i] {
            BackendCall::ReadScreen { screen, .. } => screen,
            _ => Err(BackendError::Unavailable),
        }
    } else {
        Err(BackendError::Unavailable)
    }
}

impl GatewayView {
    /// What a browser knows after it asked for the lease of a registered session:
    /// nothing where a lease cannot be given at all. `epoch` stays where another
    /// controller has the lease.
    pub open spec fn browser_acquire(
        self,
        session: Seq<char>,
        controller: ControllerRef,
        now: nat,
        epoch: u64,
        native_attached: bool,
    ) -> (Option<GatewayBrowserLease>, GatewayView) {
        if self.ttl == 0 || now + self.ttl > crate::clock::INSTANT_MAX_NANOS {
            (None, self)
        } else if crate::operation_lock::leased(self.leases, session, now)
            && self.leases[session].owner != controller {
            (
                Some(
                    GatewayBrowserLease {
                        owns_lease: false,
                        owner: owner_of(self.leases[session].owner),
                        epoch,
                        native_attached,
                    },
                ),
                self,
            )
        } else {
            let granted = crate::operation_lock::next_epoch(self.epochs, session);
            (
                Some(
                    GatewayBrowserLease {
                        owns_lease: true,
                        owner: LeaseOwner::Browser,
                        epoch: granted,
                        native_attached,
                    },
                ),
                GatewayView {
                    leases: self.leases.insert(
                        session,
                        LeaseView {
                            owner: controller,
                            epoch: granted,
                            expires_at: now + self.ttl,
                        },
                    ),
                    epochs: crate::operation_lock::advanced(self.epochs, session),
                    ..self
                },
            )
        }
    }

    /// The state after the backend was asked for native clients.
    pub open spec fn asked_native(
        self,
        session: Seq<char>,
        attached: Result<bool, BackendError>,
    ) -> GatewayView {
        self.called(BackendCall::HasNativeClient { target: self.sessions[session], attached })
    }

    /// The state after the backend was asked for the screen.
    pub open spec fn asked_screen(
        self,
        session: Seq<char>,
        screen: Result<SnapshotView, BackendError>,
    ) -> GatewayView {
        self.called(BackendCall::ReadScreen { target: self.sessions[session], screen })
    }

    /// The state after a browser gave its lease back, if it had it.
    pub open spec fn released(
        self,
        session: Seq<char>,
        controller: ControllerRef,
        now: nat,
    ) -> GatewayView {
        if self.may_write(session, controller, now) {
            GatewayView { leases: self.leases.remove(session), ..self }
        } else {
            self.inspected(session, now)
        }
    }

    /// What a browser knows when it connects, where the backend gave these
    /// answers. A native terminal client keeps control.
    pub open spec fn browser_attach(
        self,
        session: Seq<char>,
        controller: ControllerRef,
        now: nat,
        native: Result<bool, BackendError>,
        screen: Result<SnapshotView, BackendError>,
    ) -> (Option<GatewayBrowserLease>, GatewayView) {
        if !self.sessions.dom().contains(session) {
            (None, self)
        } else {
            let asked = self.asked_native(session, native);
            let (lease, state) = match native {
                Err(_) => (None, asked),
                Ok(true) => (
                    Some(
                        GatewayBrowserLease {
                            owns_lease: false,
                            owner: LeaseOwner::Terminal,
                            epoch: 0,
                            native_attached: true,
                        },
                    ),
                    asked,
                ),
                Ok(false) => asked.browser_acquire(session, controller, now, 0, false),
            };
            match lease {
                None => (None, state),
                Some(lease) => (
                    if screen is Ok {
                        Some(lease)
                    } else {
                        None
                    },
                    state.asked_screen(session, screen),
                ),
            }
        }
    }

    /// What a browser knows at the next look, where the backend gave this answer.
    /// A native terminal client that has come takes control; without one a
    /// browser takes control that is free.
    pub open spec fn browser_next(
        self,
        session: Seq<char>,
        controller: ControllerRef,
        now: nat,
        current: GatewayBrowserLease,
        native: Result<bool, BackendError>,
    ) -> (Option<GatewayBrowserLease>, GatewayView) {
        if !self.sessions.dom().contains(session) {
            (None, self)
        } else {
            let asked = self.asked_native(session, native);
            match native {
                Err(_) => (None, asked),
                Ok(attached) => if attached && !current.native_attached {
                    (
                        Some(
                            GatewayBrowserLease {
                                owns_lease: false,
                                owner: LeaseOwner::Terminal,
                                epoch: current.epoch,
                                native_attached: true,
                            },
                        ),
                        if current.owns_lease {
                            asked.released(session, controller, now)
                        } else {
                            asked
                        },
                    )
                } else if current.owns_lease || attached {
                    (
                        Some(GatewayBrowserLease { native_attached: attached, ..current }),
                        asked,
                    )
                } else {
                    asked.browser_acquire(session, controller, now, current.epoch, attached)
                },
            }
        }
    }
}

impl GatewayView {
    /// The failure where a lease cannot be given at all.
    pub open spec fn acquire_error(self, error: SessionGatewayError) -> bool {
        error == SessionGatewayError::Lock(
            if self.ttl == 0 {
                OperationLockError::InvalidLeaseTtl
            } else {
                OperationLockError::LeaseExpirationOverflow
            },
        )
    }

    /// The failure of a browser to learn about terminal control: the session is not
    /// registered, the backend failed, or a lease cannot be given at all.
    pub open spec fn browser_error(
        self,
        session: Seq<char>,
        native: Result<bool, BackendError>,
        error: SessionGatewayError,
    ) -> bool {
        if !self.sessions.dom().contains(session) {
            error.missing(session)
        } else {
            match native {
                Err(failure) => error == SessionGatewayError::Backend(failure),
                Ok(_) => self.acquire_error(error),
            }
        }
    }

    /// The failure of a browser to connect, where the backend gave these answers.
    pub open spec fn attach_error(
        self,
        session: Seq<char>,
        controller: ControllerRef,
        now: nat,
        native: Result<bool, BackendError>,
        screen: Result<SnapshotView, BackendError>,
        error: SessionGatewayError,
    ) -> bool {
        let knows = match native {
            Ok(attached) => attached || self.browser_acquire(
                session,
                controller,
                now,
                0,
                false,
            ).0 is Some,
            Err(_) => false,
        };
        if self.sessions.dom().contains(session) && knows {
            screen matches Err(failure) && error == SessionGatewayError::Backend(failure)
        } else {
            self.browser_error(session, native, error)
        }
    }
}

/// Asks for the lease of a session for a browser.
fn acquire_for_browser<B: BackendAdapter>(
    gateway: &mut SessionGateway<B>,
    session: &SessionName,
    controller: ControllerRef,
    now: Instant,
    epoch: u64,
    native_attached: bool,
) -> (r: Result<GatewayBrowserLease, SessionGatewayError>)
    requires
        old(gateway)@.sessions.dom().contains(session@),
    ensures
        (
            match r {
                Ok(lease) => Some(lease),
                Err(_) => None,
            },
            final(gateway)@,
        ) == old(gateway)@.browser_acquire(
            session@,
            controller,
            now@,
            epoch,
            native_attached,
        ),
        r matches Err(error) ==> old(gateway)@.acquire_error(error),
{
    match gateway.acquire_controller(session, controller, now) {
        Ok(lease) => Ok(
            GatewayBrowserLease {
                owns_lease: true,
                owner: LeaseOwner::Browser,
                epoch: lease.epoch(),
                native_attached,
            },
        ),
        Err(SessionGatewayError::Lock(OperationLockError::LeaseConflict { owner, .. })) => Ok(
            GatewayBrowserLease {
                owns_lease: false,
                owner: lease_owner_from_controller(owner),
                epoch,
                native_attached,
            },
        ),
        Err(error) => Err(error),
    }
}

/// The lease change as a message.
pub open spec fn lease_notice(lease: GatewayBrowserLease) -> SocketMessageView {
    SocketMessageView::Control(
        ServerMessageView::LeaseChanged { owner: lease.owner, epoch: lease.epoch },
    )
}

fn lease_message(lease: GatewayBrowserLease) -> (r: SocketMessage)
    ensures
        r@ == lease_notice(lease),
{
    SocketMessage::Control(
        ServerControlMessage::LeaseChanged { owner: lease.owner, epoch: lease.epoch },
    )
}

/// The screen as it is sent to a browser.
pub open spec fn screen_octets(screen: SnapshotView, viewport: Option<ViewportView>) -> Seq<u8> {
    vstd::utf8::encode_utf8(
        crate::screen::screen_text(
            screen,
            match viewport {
                Some(viewport) => viewport,
                None => crate::screen::whole(screen),
            },
        ),
    )
}

/// The contents of an optional viewport.
pub open spec fn viewport_view(viewport: Option<GatewayViewport>) -> Option<ViewportView> {
    match viewport {
        Some(viewport) => Some(viewport@),
        None => None,
    }
}

/// What a browser is sent when it connects.
pub open spec fn attach_plan(
    session: Seq<char>,
    lease: GatewayBrowserLease,
    screen: SnapshotView,
    viewport: Option<ViewportView>,
) -> PlanView {
    PlanView::nothing().tell(lease_notice(lease)).tell(
        SocketMessageView::Control(ServerMessageView::ReplayStarted),
    ).tell(SocketMessageView::Control(ServerMessageView::Ready { session })).tell(
        SocketMessageView::Binary(screen_octets(screen, viewport)),
    ).tell(SocketMessageView::Control(ServerMessageView::ReplayFinished))
}

/// Connects a browser to a session: it takes control unless someone else has it,
/// and is shown the screen.
pub fn attach_gateway_browser<B: BackendAdapter>(
    gateway: &mut SessionGateway<B>,
    session: &SessionName,
    controller: ControllerRef,
    viewport: Option<GatewayViewport>,
    now: Instant,
) -> (r: Result<(GatewayBrowserLease, SocketPlan), SessionGatewayError>)
    ensures
        ({
            let asked = old(gateway)@.calls.len() as int;
            let native = native_answer(final(gateway)@.calls, asked);
            let screen = screen_answer(final(gateway)@.calls, asked + 1);
            &&& (
                match r {
                    Ok(attached) => Some(attached.0),
                    Err(_) => None,
                },
                final(gateway)@,
            ) == old(gateway)@.browser_attach(session@, controller, now@, native, screen)
            &&& match r {
                Ok(attached) => attached.1@ == attach_plan(
                    session@,
                    attached.0,
                    screen->Ok_0,
                    viewport_view(viewport),
                ),
                Err(error) => old(gateway)@.attach_error(
                    session@,
                    controller,
                    now@,
                    native,
                    screen,
                    error,
                ),
            }
        }),
{
    let native_attached = match gateway.has_native_client(session) {
        Ok(native_attached) => native_attached,
        Err(error) => return Err(error),
    };
    let lease = if native_attached {
        GatewayBrowserLease {
            owns_lease: false,
            owner: LeaseOwner::Terminal,
            epoch: 0,
            native_attached,
        }
    } else {
        match acquire_for_browser(gateway, session, controller, now, 0, native_attached) {
            Ok(lease) => lease,
            Err(error) => return Err(error),
        }
    };
    let snapshot = match gateway.read_screen(session) {
        Ok(snapshot) => snapshot,
        Err(error) => return Err(error),
    };
    let bytes = crate::screen::screen_snapshot_bytes(&snapshot, viewport);
    let plan = SocketPlan::nothing().tell(lease_message(lease)).tell(
        SocketMessage::Control(ServerControlMessage::ReplayStarted),
    ).tell(
        SocketMessage::Control(ServerControlMessage::Ready { session: session.clone() }),
    ).tell(SocketMessage::Binary(bytes)).tell(
        SocketMessage::Control(ServerControlMessage::ReplayFinished),
    );
    Ok((lease, plan))
}

/// What a browser knows about terminal control at the next look.
pub fn next_gateway_browser_lease<B: BackendAdapter>(
    gateway: &mut SessionGateway<B>,
    session: &SessionName,
    controller: ControllerRef,
    current: GatewayBrowserLease,
    now: Instant,
) -> (r: Result<GatewayBrowserLease, SessionGatewayError>)
    ensures
        (
            match r {
                Ok(lease) => Some(lease),
                Err(_) => None,
            },
            final(gateway)@,
        ) == old(gateway)@.browser_next(
            session@,
            controller,
            now@,
            current,
            native_answer(final(gateway)@.calls, old(gateway)@.calls.len() as int),
        ),
        r matches Err(error) ==> old(gateway)@.browser_error(
            session@,
            native_answer(final(gateway)@.calls, old(gateway)@.calls.len() as int),
            error,
        ),
{
    let native_attached = match gateway.has_native_client(session) {
        Ok(native_attached) => native_attached,
        Err(error) => return Err(error),
    };
    if native_attached && !current.native_attached {
        if current.owns_lease {
            let _ = gateway.release_controller(session, controller, now);
        }
        return Ok(
            GatewayBrowserLease {
                owns_lease: false,
                owner: LeaseOwner::Terminal,
                epoch: current.epoch,
                native_attached,
            },
        );
    }
    if current.owns_lease || native_attached {
        return Ok(
            GatewayBrowserLease {
                owns_lease: current.owns_lease,
                owner: current.owner,
                epoch: current.epoch,
                native_attached,
            },
        );
    }
    acquire_for_browser(gateway, session, controller, now, current.epoch, native_attached)
}

/// What happens to the connection of a browser.
#[derive(Debug)]
pub enum BrowserEvent {
    /// Terminal bytes arrived.
    Binary(Bytes),
    /// A control frame arrived, or a text that is none.
    Text(Option<ClientControlMessage>),
    /// A ping arrived.
    Ping(Bytes),
    /// A pong arrived.
    Pong,
    /// A close frame arrived, or the connection failed.
    Closed,
    /// It is time to look at the screen.
    ScreenTick,
    /// It is time to look for silence.
    HeartbeatTick,
    /// It is time to ping.
    PingTick,
}

/// What the backend answered to call `i`, a write.
pub open spec fn write_answer(calls: Seq<BackendCall>, i: int) -> Result<(), BackendError> {
    if 0 <= i < calls.len() {
        calls[i].outcome()
    } else {
        Err(BackendError::Unavailable)
    }
}

/// The state of a [`GatewayBrowser`].
#[verifier::ext_equal]
pub struct BrowserView {
    /// Session.
    pub session: Seq<char>,
    /// Controller that the browser is.
    pub controller: ControllerRef,
    /// What the browser knows about terminal control.
    pub lease: GatewayBrowserLease,
    /// Part of the screen that the browser shows.
    pub viewport: Option<ViewportView>,
    /// What the browser was last shown.
    pub last_screen: Seq<u8>,
    /// When the browser was last heard of.
    pub last_message: nat,
}

/// The connection, the gateway and what to send, after an event.
pub struct BrowserStep {
    /// Connection.
    pub browser: BrowserView,
    /// Gateway.
    pub gateway: GatewayView,
    /// What to send.
    pub plan: PlanView,
}

/// The report of a failed backend operation.
pub open spec fn backend_failed() -> PlanView {
    PlanView::nothing().tell(error_message(ErrorCode::Runtime, "backend operation failed"@))
}

/// Tells a browser about `next`, where it differs from `current` in what browsers
/// are told.
pub open spec fn lease_change(current: GatewayBrowserLease, next: GatewayBrowserLease) -> PlanView {
    if next.owner != current.owner || next.epoch != current.epoch {
        PlanView::nothing().tell(lease_notice(next))
    } else {
        PlanView::nothing()
    }
}

impl BrowserView {
    /// Terminal bytes of the browser are written only while it owns the lease.
    pub open spec fn on_binary(
        self,
        gateway: GatewayView,
        bytes: Seq<u8>,
        now: nat,
        answer: Result<(), BackendError>,
    ) -> BrowserStep {
        let (state, plan) = if !self.lease.owns_lease {
            (
                gateway,
                PlanView::nothing().tell(
                    error_message(
                        ErrorCode::Forbidden,
                        "controller does not own input lease"@,
                    ),
                ),
            )
        } else if bytes.len() > crate::tunnel::TUNNEL_TERMINAL_PAYLOAD_MAX_BYTES {
            (gateway, rejected_frame())
        } else if gateway.may_write(self.session, self.controller, now) {
            (
                gateway.called(
                    BackendCall::WriteInput {
                        target: gateway.sessions[self.session],
                        bytes,
                        answer,
                    },
                ),
                if answer is Ok {
                    PlanView::nothing()
                } else {
                    backend_failed()
                },
            )
        } else {
            (gateway.inspected(self.session, now), backend_failed())
        };
        BrowserStep { browser: self, gateway: state, plan }
    }

    /// A browser that asks for control gets it, unless another controller has it.
    pub open spec fn on_acquire(
        self,
        gateway: GatewayView,
        now: nat,
        native: Result<bool, BackendError>,
    ) -> BrowserStep {
        if !gateway.sessions.dom().contains(self.session) {
            BrowserStep { browser: self, gateway, plan: backend_failed() }
        } else {
            let asked = gateway.asked_native(self.session, native);
            let (lease, state) = match native {
                Ok(attached) => asked.browser_acquire(
                    self.session,
                    self.controller,
                    now,
                    self.lease.epoch,
                    attached,
                ),
                Err(_) => (None, asked),
            };
            match lease {
                Some(lease) => BrowserStep {
                    browser: BrowserView { lease, ..self },
                    gateway: state,
                    plan: lease_change(self.lease, lease),
                },
                None => BrowserStep { browser: self, gateway: state, plan: backend_failed() },
            }
        }
    }

    /// A control frame of the browser. The size of a backend session does not
    /// follow the browser; its viewport does.
    pub open spec fn on_text(
        self,
        gateway: GatewayView,
        message: Option<ClientControlMessage>,
        now: nat,
        native: Result<bool, BackendError>,
    ) -> BrowserStep {
        match message {
            None => BrowserStep { browser: self, gateway, plan: rejected_frame() },
            Some(ClientControlMessage::AcquireControl) => self.on_acquire(gateway, now, native),
            Some(ClientControlMessage::Resize { cols, rows }) => {
                let size = TerminalSize { cols, rows };
                BrowserStep {
                    browser: BrowserView {
                        viewport: Some(
                            match self.viewport {
                                Some(viewport) => ViewportView { size, ..viewport },
                                None => ViewportView {
                                    size,
                                    origin_col: None,
                                    origin_row: None,
                                },
                            },
                        ),
                        ..self
                    },
                    gateway,
                    plan: PlanView::nothing().tell(
                        SocketMessageView::Control(ServerMessageView::SizeChanged { size }),
                    ),
                }
            },
            Some(ClientControlMessage::Viewport { col, row }) => BrowserStep {
                browser: BrowserView {
                    viewport: match self.viewport {
                        Some(viewport) => Some(
                            ViewportView {
                                size: viewport.size,
                                origin_col: match col {
                                    Some(col) => Some(col@),
                                    None => viewport.origin_col,
                                },
                                origin_row: match row {
                                    Some(row) => Some(row@),
                                    None => viewport.origin_row,
                                },
                            },
                        ),
                        None => None,
                    },
                    ..self
                },
                gateway,
                plan: PlanView::nothing(),
            },
            Some(ClientControlMessage::Heartbeat { .. }) => BrowserStep {
                browser: self,
                gateway,
                plan: PlanView::nothing(),
            },
        }
    }

    /// The screen is sent when it has changed.
    pub open spec fn on_screen(
        self,
        gateway: GatewayView,
        screen: Result<SnapshotView, BackendError>,
    ) -> BrowserStep {
        if !gateway.sessions.dom().contains(self.session) {
            BrowserStep { browser: self, gateway, plan: session_gone() }
        } else {
            let asked = gateway.asked_screen(self.session, screen);
            match screen {
                Err(_) => BrowserStep { browser: self, gateway: asked, plan: session_gone() },
                Ok(screen) => {
                    let bytes = screen_octets(screen, self.viewport);
                    if bytes == self.last_screen {
                        BrowserStep { browser: self, gateway: asked, plan: PlanView::nothing() }
                    } else {
                        BrowserStep {
                            browser: BrowserView { last_screen: bytes, ..self },
                            gateway: asked,
                            plan: PlanView::nothing().must(SocketMessageView::Binary(bytes)),
                        }
                    }
                },
            }
        }
    }

    /// Terminal control is looked at, then the screen.
    pub open spec fn on_tick(
        self,
        gateway: GatewayView,
        now: nat,
        native: Result<bool, BackendError>,
        screen: Result<SnapshotView, BackendError>,
    ) -> BrowserStep {
        let (lease, state) = gateway.browser_next(
            self.session,
            self.controller,
            now,
            self.lease,
            native,
        );
        match lease {
            None => BrowserStep { browser: self, gateway: state, plan: session_gone() },
            Some(lease) => {
                let shown = BrowserView { lease, ..self }.on_screen(state, screen);
                BrowserStep {
                    plan: lease_change(self.lease, lease).followed_by(shown.plan),
                    ..shown
                }
            },
        }
    }

    /// The connection, the gateway and what to send after `event`, where the
    /// backend gave these answers.
    pub open spec fn step(
        self,
        gateway: GatewayView,
        event: BrowserEvent,
        now: nat,
        native: Result<bool, BackendError>,
        screen: Result<SnapshotView, BackendError>,
        answer: Result<(), BackendError>,
    ) -> BrowserStep {
        let heard = BrowserView { last_message: now, ..self };
        match event {
            BrowserEvent::Binary(bytes) => heard.on_binary(
                gateway,
                crate::octets::octets(bytes),
                now,
                answer,
            ),
            BrowserEvent::Text(message) => heard.on_text(gateway, message, now, native),
            BrowserEvent::Ping(bytes) => BrowserStep {
                browser: heard,
                gateway,
                plan: PlanView::nothing().must(
                    SocketMessageView::Pong(crate::octets::octets(bytes)),
                ),
            },
            BrowserEvent::Pong => BrowserStep {
                browser: heard,
                gateway,
                plan: PlanView::nothing(),
            },
            BrowserEvent::Closed => BrowserStep {
                browser: heard,
                gateway,
                plan: PlanView::nothing().end(),
            },
            BrowserEvent::ScreenTick => self.on_tick(gateway, now, native, screen),
            BrowserEvent::HeartbeatTick => BrowserStep {
                browser: self,
                gateway,
                plan: if silent(self.last_message, now) {
                    closed_with(CloseCode::Normal, "client heartbeat timeout"@)
                } else {
                    PlanView::nothing()
                },
            },
            BrowserEvent::PingTick => BrowserStep {
                browser: self,
                gateway,
                plan: PlanView::nothing().must(SocketMessageView::Ping),
            },
        }
    }
}

/// Tells whether a browser that was last heard of at `last` counts as gone.
pub open spec fn silent(last: nat, now: nat) -> bool {
    now >= last + CLIENT_HEARTBEAT_TIMEOUT_SECS * 1_000_000_000
}

/// Returns whether a browser that was last heard of at `last` counts as gone.
pub fn is_silent(last: Instant, now: Instant) -> (r: bool)
    ensures
        r == silent(last@, now@),
{
    now.saturating_duration_since(last).as_nanos()
        >= CLIENT_HEARTBEAT_TIMEOUT_SECS as u128 * 1_000_000_000
}

/// Connection of a browser to a backend session.
pub struct GatewayBrowser {
    session: SessionName,
    controller: ControllerRef,
    lease: GatewayBrowserLease,
    viewport: Option<GatewayViewport>,
    last_screen: Bytes,
    last_message: Instant,
}

impl View for GatewayBrowser {
    type V = BrowserView;

    closed spec fn view(&self) -> BrowserView {
        BrowserView {
            session: self.session@,
            controller: self.controller,
            lease: self.lease,
            viewport: viewport_view(self.viewport),
            last_screen: crate::octets::octets(self.last_screen),
            last_message: self.last_message@,
        }
    }
}

impl GatewayBrowser {
    /// The connection of a browser that was just attached.
    pub fn new(
        session: SessionName,
        controller: ControllerRef,
        lease: GatewayBrowserLease,
        viewport: Option<GatewayViewport>,
        now: Instant,
    ) -> (r: Self)
        ensures
            r@ == (BrowserView {
                session: session@,
                controller,
                lease,
                viewport: viewport_view(viewport),
                last_screen: seq![],
                last_message: now@,
            }),
    {
        let r = GatewayBrowser {
            session,
            controller,
            lease,
            viewport,
            last_screen: crate::octets::bytes_from_vec(Vec::new()),
            last_message: now,
        };
        proof {
            assert(r@.last_screen =~= seq![]);
        }
        r
    }

    fn handle_binary<B: BackendAdapter>(
        &mut self,
        gateway: &mut SessionGateway<B>,
        bytes: Bytes,
        now: Instant,
    ) -> (r: SocketPlan)
        ensures
            (BrowserStep { browser: final(self)@, gateway: final(gateway)@, plan: r@ }) == old(
                self,
            )@.on_binary(
                old(gateway)@,
                crate::octets::octets(bytes),
                now@,
                write_answer(final(gateway)@.calls, old(gateway)@.calls.len() as int),
            ),
    {
        if !self.lease.owns_lease {
            return SocketPlan::nothing().tell(
                SocketMessage::Control(
                    ServerControlMessage::Error {
                        code: ErrorCode::Forbidden,
                        message: SafeMessage::from_static("controller does not own input lease"),
                    },
                ),
            );
        }
        let payload = match TunnelTerminalPayload::new(bytes) {
            Ok(payload) => payload,
            Err(_) => return reject_frame(),
        };
        match gateway.write_input(&self.session, self.controller, payload.into_bytes(), now) {
            Ok(_) => SocketPlan::nothing(),
            Err(_) => runtime_error_plan(),
        }
    }

    fn take_lease(&mut self, next: GatewayBrowserLease) -> (r: SocketPlan)
        ensures
            final(self)@ == (BrowserView { lease: next, ..old(self)@ }),
            r@ == lease_change(old(self)@.lease, next),
    {
        let changed = next.owner != self.lease.owner || next.epoch != self.lease.epoch;
        self.lease = next;
        if changed {
            SocketPlan::nothing().tell(lease_message(next))
        } else {
            SocketPlan::nothing()
        }
    }

    fn handle_acquire<B: BackendAdapter>(
        &mut self,
        gateway: &mut SessionGateway<B>,
        now: Instant,
    ) -> (r: SocketPlan)
        ensures
            (BrowserStep { browser: final(self)@, gateway: final(gateway)@, plan: r@ }) == old(
                self,
            )@.on_acquire(
                old(gateway)@,
                now@,
                native_answer(final(gateway)@.calls, old(gateway)@.calls.len() as int),
            ),
    {
        let native_attached = match gateway.has_native_client(&self.session) {
            Ok(native_attached) => native_attached,
            Err(_) => return runtime_error_plan(),
        };
        match acquire_for_browser(
            gateway,
            &self.session,
            self.controller,
            now,
            self.lease.epoch,
            native_attached,
        ) {
            Ok(next) => self.take_lease(next),
            Err(_) => runtime_error_plan(),
        }
    }

    fn handle_text<B: BackendAdapter>(
        &mut self,
        gateway: &mut SessionGateway<B>,
        message: Option<ClientControlMessage>,
        now: Instant,
    ) -> (r: SocketPlan)
        ensures
            (BrowserStep { browser: final(self)@, gateway: final(gateway)@, plan: r@ }) == old(
                self,
            )@.on_text(
                old(gateway)@,
                message,
                now@,
                native_answer(final(gateway)@.calls, old(gateway)@.calls.len() as int),
            ),
    {
        let message = match message {
            Some(message) => message,
            None => return reject_frame(),
        };
        match message {
            ClientControlMessage::AcquireControl => self.handle_acquire(gateway, now),
            ClientControlMessage::Resize { cols, rows } => {
                let size = TerminalSize { cols, rows };
                let viewport = match self.viewport {
                    Some(viewport) => {
                        let mut viewport = viewport;
                        viewport.update_size(size);
                        viewport
                    },
                    None => GatewayViewport::new(size),
                };
                self.viewport = Some(viewport);
                SocketPlan::nothing().tell(
                    SocketMessage::Control(ServerControlMessage::SizeChanged { size }),
                )
            },
            ClientControlMessage::Viewport { col, row } => {
                let col = match col {
                    Some(col) => Some(col.get()),
                    None => None,
                };
                let row = match row {
                    Some(row) => Some(row.get()),
                    None => None,
                };
                if let Some(viewport) = self.viewport {
                    let mut viewport = viewport;
                    viewport.update_origin(col, row);
                    self.viewport = Some(viewport);
                }
                SocketPlan::nothing()
            },
            ClientControlMessage::Heartbeat { .. } => SocketPlan::nothing(),
        }
    }

    fn handle_screen<B: BackendAdapter>(&mut self, gateway: &mut SessionGateway<B>) -> (r:
        SocketPlan)
        ensures
            (BrowserStep { browser: final(self)@, gateway: final(gateway)@, plan: r@ }) == old(
                self,
            )@.on_screen(
                old(gateway)@,
                screen_answer(final(gateway)@.calls, old(gateway)@.calls.len() as int),
            ),
    {
        let snapshot = match gateway.read_screen(&self.session) {
            Ok(snapshot) => snapshot,
            Err(_) => return SocketPlan::closing(runtime_unavailable_close()),
        };
        let bytes = crate::screen::screen_snapshot_bytes(&snapshot, self.viewport);
        if crate::octets::same_bytes(&bytes, &self.last_screen) {
            return SocketPlan::nothing();
        }
        self.last_screen = bytes.clone();
        SocketPlan::nothing().must(SocketMessage::Binary(bytes))
    }

    fn handle_tick<B: BackendAdapter>(&mut self, gateway: &mut SessionGateway<B>, now: Instant) -> (
    r: SocketPlan)
        ensures
            ({
                let asked = old(gateway)@.calls.len() as int;
                (BrowserStep { browser: final(self)@, gateway: final(gateway)@, plan: r@ }) == old(
                    self,
                )@.on_tick(
                    old(gateway)@,
                    now@,
                    native_answer(final(gateway)@.calls, asked),
                    screen_answer(final(gateway)@.calls, asked + 1),
                )
            }),
    {
        match next_gateway_browser_lease(
            gateway,
            &self.session,
            self.controller,
            self.lease,
            now,
        ) {
            Ok(next) => {
                let plan = self.take_lease(next);
                let shown = self.handle_screen(gateway);
                plan.followed_by(shown)
            },
            Err(_) => SocketPlan::closing(runtime_unavailable_close()),
        }
    }

    /// Takes an event of the connection and tells what to send.
    pub fn step<B: BackendAdapter>(
        &mut self,
        gateway: &mut SessionGateway<B>,
        event: BrowserEvent,
        now: Instant,
    ) -> (r: SocketPlan)
        ensures
            ({
                let calls = final(gateway)@.calls;
                let asked = old(gateway)@.calls.len() as int;
                (BrowserStep { browser: final(self)@, gateway: final(gateway)@, plan: r@ }) == old(
                    self,
                )@.step(
                    old(gateway)@,
                    event,
                    now@,
                    native_answer(calls, asked),
                    screen_answer(calls, asked + 1),
                    write_answer(calls, asked),
                )
            }),
    {
        match event {
            BrowserEvent::Binary(bytes) => {
                self.last_message = now;
                self.handle_binary(gateway, bytes, now)
            },
            BrowserEvent::Text(message) => {
                self.last_message = now;
                self.handle_text(gateway, message, now)
            },
            BrowserEvent::Ping(bytes) => {
                self.last_message = now;
                SocketPlan::nothing().must(SocketMessage::Pong(bytes))
            },
            BrowserEvent::Pong => {
                self.last_message = now;
                SocketPlan::nothing()
            },
            BrowserEvent::Closed => {
                self.last_message = now;
                SocketPlan::nothing().end()
            },
            BrowserEvent::ScreenTick => self.handle_tick(gateway, now),
            BrowserEvent::HeartbeatTick => {
                if is_silent(self.last_message, now) {
                    SocketPlan::closing(client_timeout_close())
                } else {
                    SocketPlan::nothing()
                }
            },
            BrowserEvent::PingTick => SocketPlan::nothing().must(SocketMessage::Ping),
        }
    }

    /// Gives the lease back when the connection ends.
    pub fn finish<B: BackendAdapter>(self, gateway: &mut SessionGateway<B>, now: Instant)
        ensures
            final(gateway)@ == (if self@.lease.owns_lease {
                old(gateway)@.released(self@.session, self@.controller, now@)
            } else {
                old(gateway)@
            }),
    {
        if self.lease.owns_lease {
            let _ = gateway.release_controller(&self.session, self.controller, now);
        }
    }
}

} // verus!
