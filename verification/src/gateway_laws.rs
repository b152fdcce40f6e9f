//! What holds of every gateway, whoever uses it.

use vstd::prelude::*;

use crate::backend::{BackendCall, BackendError, SessionRefView, SnapshotView};
use crate::browser::{
    BrowserEvent, BrowserView, CloseCode, CloseFrame, GatewayBrowserLease, SocketMessageView,
};
use crate::operation_lock::{
    ControllerKind, ControllerRef, LeaseView, OperationLease, OperationLockError,
};
use crate::protocol::{
    ClientControlMessage, ErrorCode, LeaseOwner, ServerMessageView, TerminalSize,
};
use crate::session_gateway::{GatewayView, ServingEvent, ServingStep, SessionGatewayError};
use crate::session_registry::SessionRecord;

verus! {

/// At no moment can two controllers write to a session.
pub proof fn law_one_writer(
    gateway: GatewayView,
    session: Seq<char>,
    first: ControllerRef,
    second: ControllerRef,
    now: nat,
)
    requires
        gateway.may_write(session, first, now),
        gateway.may_write(session, second, now),
    ensures
        first == second,
{
}

/// The backend is asked to write for the lease owner alone, once, and on the pane
/// that the session is registered with, and its failure is what comes back. A refused
/// write asks nothing.
pub proof fn law_only_the_lease_owner_reaches_the_backend(
    before: GatewayView,
    session: Seq<char>,
    controller: ControllerRef,
    now: nat,
    call: spec_fn(SessionRefView, Result<(), BackendError>) -> BackendCall,
    r: Result<OperationLease, SessionGatewayError>,
    after: GatewayView,
)
    requires
        before.written(session, controller, now, call, r, after),
    ensures
        if before.may_write(session, controller, now) {
            let answer = after.calls.last().outcome();
            &&& after.calls == before.calls.push(call(before.sessions[session], answer))
            &&& r is Ok == answer is Ok
            &&& answer matches Err(error) ==> r matches Err(failure) && failure
                == SessionGatewayError::Backend(error)
        } else {
            after.calls == before.calls && r is Err
        },
        after.sessions == before.sessions,
        before.may_write(session, controller, now) ==> after.leases == before.leases,
{
}

/// A controller that was given the lease may write until it is over, and nobody
/// else may.
pub proof fn law_lease_lets_its_owner_write(
    before: GatewayView,
    session: Seq<char>,
    controller: ControllerRef,
    now: nat,
    lease: OperationLease,
    after: GatewayView,
    later: nat,
    other: ControllerRef,
)
    requires
        before.sessions.dom().contains(session),
        after == (GatewayView { leases: after.leases, epochs: after.epochs, ..before }),
        crate::operation_lock::acquired(
            before.locks(),
            session,
            controller,
            now,
            before.ttl,
            Ok(lease),
            after.locks(),
        ),
        later < now + before.ttl,
    ensures
        after.may_write(session, controller, later),
        other != controller ==> !after.may_write(session, other, later),
{
}

/// Tells whether every lease is for a registered session.
pub open spec fn leases_are_for_sessions(gateway: GatewayView) -> bool {
    forall|session: Seq<char>|
        #[trigger] gateway.leases.dom().contains(session) ==> gateway.sessions.dom().contains(
            session,
        )
}

/// Every lease stays one for a registered session: when leases are acquired or
/// given back, when sessions are written to, registered or closed.
pub proof fn law_leases_are_for_sessions(
    gateway: GatewayView,
    session: Seq<char>,
    target: SessionRefView,
    lease: LeaseView,
    now: nat,
    call: BackendCall,
)
    requires
        leases_are_for_sessions(gateway),
    ensures
        leases_are_for_sessions(gateway.called(call)),
        leases_are_for_sessions(gateway.inspected(session, now)),
        leases_are_for_sessions(
            (GatewayView { sessions: gateway.sessions.insert(session, target), ..gateway }),
        ),
        gateway.sessions.dom().contains(session) ==> leases_are_for_sessions(
            (GatewayView { leases: gateway.leases.insert(session, lease), ..gateway }),
        ),
        leases_are_for_sessions(
            (GatewayView { leases: gateway.leases.remove(session), ..gateway }),
        ),
        leases_are_for_sessions(gateway.without_session(session)),
{
}

/// A closed session has no writer.
pub proof fn law_closed_session_has_no_writer(
    gateway: GatewayView,
    session: Seq<char>,
    controller: ControllerRef,
    now: nat,
)
    ensures
        !gateway.without_session(session).may_write(session, controller, now),
{
}

proof fn lemma_browser_acquire(
    gateway: GatewayView,
    session: Seq<char>,
    controller: ControllerRef,
    now: nat,
    epoch: u64,
    native_attached: bool,
)
    ensures
        ({
            let (lease, after) = gateway.browser_acquire(
                session,
                controller,
                now,
                epoch,
                native_attached,
            );
            &&& after.calls == gateway.calls
            &&& after.sessions == gateway.sessions
            &&& crate::operation_lock::leased(gateway.leases, session, now)
                && gateway.leases[session].owner != controller ==> after.leases == gateway.leases
            &&& lease matches Some(lease) ==> lease.owns_lease ==> after.leases.dom().contains(
                session,
            ) && after.leases[session].owner == controller && lease.owner == LeaseOwner::Browser
        }),
{
}

/// A connected browser asks the backend only whether a native client is attached,
/// what is on the screen, and to write what it sent. It writes only while it may.
/// It never resizes, scrolls or closes a session.
pub proof fn law_browser_only_looks_and_types(
    browser: BrowserView,
    gateway: GatewayView,
    event: BrowserEvent,
    now: nat,
    native: Result<bool, BackendError>,
    screen: Result<SnapshotView, BackendError>,
    answer: Result<(), BackendError>,
    i: int,
)
    requires
        gateway.calls.len() <= i < browser.step(
            gateway,
            event,
            now,
            native,
            screen,
            answer,
        ).gateway.calls.len(),
    ensures
        match browser.step(gateway, event, now, native, screen, answer).gateway.calls[i] {
            BackendCall::HasNativeClient { target, .. } => target
                == gateway.sessions[browser.session],
            BackendCall::ReadScreen { target, .. } => target == gateway.sessions[browser.session],
            BackendCall::WriteInput { target, bytes, .. } => {
                &&& target == gateway.sessions[browser.session]
                &&& event matches BrowserEvent::Binary(sent)
                &&& bytes == crate::octets::octets(sent)
                &&& browser.lease.owns_lease
                &&& gateway.may_write(browser.session, browser.controller, now)
            },
            _ => false,
        },
        browser.step(gateway, event, now, native, screen, answer).gateway.sessions
            == gateway.sessions,
{
    let asked = gateway.asked_native(browser.session, native);
    lemma_browser_acquire(
        asked,
        browser.session,
        browser.controller,
        now,
        browser.lease.epoch,
        false,
    );
    lemma_browser_acquire(
        asked,
        browser.session,
        browser.controller,
        now,
        browser.lease.epoch,
        true,
    );
}

/// A browser takes control from nobody: while another controller has the lease,
/// whatever happens to the connection leaves the lease alone.
pub proof fn law_browser_takes_no_lease_away(
    browser: BrowserView,
    gateway: GatewayView,
    event: BrowserEvent,
    now: nat,
    native: Result<bool, BackendError>,
    screen: Result<SnapshotView, BackendError>,
    answer: Result<(), BackendError>,
)
    requires
        crate::operation_lock::leased(gateway.leases, browser.session, now),
        gateway.leases[browser.session].owner != browser.controller,
    ensures
        browser.step(gateway, event, now, native, screen, answer).gateway.leases == gateway.leases,
{
    let asked = gateway.asked_native(browser.session, native);
    lemma_browser_acquire(
        asked,
        browser.session,
        browser.controller,
        now,
        browser.lease.epoch,
        false,
    );
    lemma_browser_acquire(
        asked,
        browser.session,
        browser.controller,
        now,
        browser.lease.epoch,
        true,
    );
}

/// A native terminal client that comes takes control from a browser: the browser
/// may no longer write and is told that the terminal has control.
pub proof fn law_native_terminal_takes_control(
    gateway: GatewayView,
    session: Seq<char>,
    controller: ControllerRef,
    now: nat,
    current: GatewayBrowserLease,
)
    requires
        gateway.sessions.dom().contains(session),
        current.owns_lease,
        !current.native_attached,
    ensures
        ({
            let (lease, after) = gateway.browser_next(
                session,
                controller,
                now,
                current,
                Ok(true),
            );
            &&& lease matches Some(lease)
            &&& !lease.owns_lease
            &&& lease.owner == LeaseOwner::Terminal
            &&& lease.native_attached
            &&& !after.may_write(session, controller, now)
        }),
{
}

/// A browser that connects to a free session without a native client may write.
pub proof fn law_browser_gets_free_control(
    gateway: GatewayView,
    session: Seq<char>,
    controller: ControllerRef,
    now: nat,
    screen: SnapshotView,
)
    requires
        gateway.sessions.dom().contains(session),
        !crate::operation_lock::leased(gateway.leases, session, now),
        gateway.ttl > 0,
        now + gateway.ttl <= crate::clock::INSTANT_MAX_NANOS,
    ensures
        ({
            let (lease, after) = gateway.browser_attach(
                session,
                controller,
                now,
                Ok(false),
                Ok(screen),
            );
            &&& lease matches Some(lease)
            &&& lease.owns_lease
            &&& lease.owner == LeaseOwner::Browser
            &&& after.may_write(session, controller, now)
        }),
{
}

/// A browser is sent the screen exactly when it differs from what it was last
/// sent, and then knows it.
pub proof fn law_browser_sees_every_change(
    browser: BrowserView,
    gateway: GatewayView,
    screen: SnapshotView,
)
    requires
        gateway.sessions.dom().contains(browser.session),
    ensures
        ({
            let step = browser.on_screen(gateway, Ok(screen));
            let bytes = crate::browser::screen_octets(screen, browser.viewport);
            &&& step.browser.last_screen == bytes
            &&& bytes == browser.last_screen ==> step.plan
                == crate::browser::PlanView::nothing()
            &&& bytes != browser.last_screen ==> step.plan
                == crate::browser::PlanView::nothing().must(
                crate::browser::SocketMessageView::Binary(bytes),
            )
        }),
{
}

/// Tells whether a lease of another controller is in force.
pub open spec fn held_by_another(
    gateway: GatewayView,
    session: Seq<char>,
    controller: ControllerRef,
    now: nat,
) -> bool {
    &&& gateway.leases.dom().contains(session)
    &&& now < gateway.leases[session].expires_at
    &&& gateway.leases[session].owner != controller
}

/// A browser without control takes control that is free at the next look where no native
/// client is attached, and may then write until the lease is over. Where another controller
/// has it, the browser is told who, and the lease stays.
pub proof fn law_browser_takes_free_control_at_a_look(
    gateway: GatewayView,
    session: Seq<char>,
    controller: ControllerRef,
    now: nat,
    current: GatewayBrowserLease,
    later: nat,
)
    requires
        gateway.sessions.dom().contains(session),
        gateway.ttl > 0,
        now + gateway.ttl <= crate::clock::INSTANT_MAX_NANOS,
        !current.owns_lease,
    ensures
        ({
            let (lease, after) = gateway.browser_next(
                session,
                controller,
                now,
                current,
                Ok(false),
            );
            &&& lease matches Some(lease)
            &&& !lease.native_attached
            &&& if held_by_another(gateway, session, controller, now) {
                &&& !lease.owns_lease
                &&& after.leases == gateway.leases
                &&& match gateway.leases[session].owner@.0 {
                    ControllerKind::Browser => lease.owner == LeaseOwner::Browser,
                    ControllerKind::Agent => lease.owner == LeaseOwner::Agent,
                    ControllerKind::Transport => lease.owner == LeaseOwner::Terminal,
                }
            } else {
                &&& lease.owns_lease
                &&& lease.owner == LeaseOwner::Browser
                &&& after.may_write(session, controller, now)
                &&& after.leases[session].owner == controller
                &&& after.leases[session].epoch == lease.epoch
                &&& after.leases[session].expires_at == now + gateway.ttl
                &&& later < now + gateway.ttl ==> after.may_write(session, controller, later)
            }
        }),
{
}

/// A browser that has control keeps it at every look at which no native client has come,
/// and one that has none gets none while a native client is attached.
pub proof fn law_control_stays_without_a_reason(
    gateway: GatewayView,
    session: Seq<char>,
    controller: ControllerRef,
    now: nat,
    current: GatewayBrowserLease,
    attached: bool,
)
    requires
        gateway.sessions.dom().contains(session),
        current.owns_lease || attached,
        attached ==> current.native_attached || !current.owns_lease,
    ensures
        ({
            let (lease, after) = gateway.browser_next(
                session,
                controller,
                now,
                current,
                Ok(attached),
            );
            &&& lease matches Some(lease)
            &&& lease.owns_lease == current.owns_lease
            &&& lease.epoch == current.epoch
            &&& lease.native_attached == attached
            &&& after.leases == gateway.leases
            &&& after.epochs == gateway.epochs
            &&& lease.owner == (if attached && !current.native_attached {
                LeaseOwner::Terminal
            } else {
                current.owner
            })
        }),
{
}

/// A browser that connects while a native client is attached gets no control and is told
/// that the terminal has it; one that connects while another controller has the lease is
/// told who. Neither changes a lease.
pub proof fn law_connecting_browser_respects_control(
    gateway: GatewayView,
    session: Seq<char>,
    controller: ControllerRef,
    now: nat,
    native: bool,
    screen: SnapshotView,
)
    requires
        gateway.sessions.dom().contains(session),
        gateway.ttl > 0,
        now + gateway.ttl <= crate::clock::INSTANT_MAX_NANOS,
        native || held_by_another(gateway, session, controller, now),
    ensures
        ({
            let (lease, after) = gateway.browser_attach(
                session,
                controller,
                now,
                Ok(native),
                Ok(screen),
            );
            &&& lease matches Some(lease)
            &&& !lease.owns_lease
            &&& lease.epoch == 0
            &&& lease.native_attached == native
            &&& after.leases == gateway.leases
            &&& native ==> lease.owner == LeaseOwner::Terminal
            &&& !native ==> match gateway.leases[session].owner@.0 {
                ControllerKind::Browser => lease.owner == LeaseOwner::Browser,
                ControllerKind::Agent => lease.owner == LeaseOwner::Agent,
                ControllerKind::Transport => lease.owner == LeaseOwner::Terminal,
            }
        }),
{
}

/// A browser that asks for control gets it where it is free, whether or not a native client
/// is attached, and is told of it. Where another controller has it, nothing changes.
pub proof fn law_browser_that_asks_gets_free_control(
    browser: BrowserView,
    gateway: GatewayView,
    now: nat,
    attached: bool,
    screen: Result<SnapshotView, BackendError>,
    answer: Result<(), BackendError>,
)
    requires
        gateway.sessions.dom().contains(browser.session),
        gateway.ttl > 0,
        now + gateway.ttl <= crate::clock::INSTANT_MAX_NANOS,
    ensures
        ({
            let step = browser.step(
                gateway,
                BrowserEvent::Text(Some(ClientControlMessage::AcquireControl)),
                now,
                Ok(attached),
                screen,
                answer,
            );
            let lease = step.browser.lease;
            &&& lease.native_attached == attached
            &&& !step.plan.close
            &&& if held_by_another(gateway, browser.session, browser.controller, now) {
                &&& !lease.owns_lease
                &&& lease.epoch == browser.lease.epoch
                &&& step.gateway.leases == gateway.leases
            } else {
                &&& lease.owns_lease
                &&& lease.owner == LeaseOwner::Browser
                &&& step.gateway.may_write(browser.session, browser.controller, now)
                &&& step.gateway.leases[browser.session].epoch == lease.epoch
            }
            &&& lease.owner != browser.lease.owner || lease.epoch != browser.lease.epoch
                ==> step.plan.sends == seq![
                (
                    SocketMessageView::Control(
                        ServerMessageView::LeaseChanged { owner: lease.owner, epoch: lease.epoch },
                    ),
                    false,
                ),
            ]
            &&& lease.owner == browser.lease.owner && lease.epoch == browser.lease.epoch
                ==> step.plan.sends.len() == 0
        }),
{
    let step = browser.step(
        gateway,
        BrowserEvent::Text(Some(ClientControlMessage::AcquireControl)),
        now,
        Ok(attached),
        screen,
        answer,
    );
    let lease = step.browser.lease;
    if lease.owner != browser.lease.owner || lease.epoch != browser.lease.epoch {
        assert(step.plan.sends =~= seq![
            (
                SocketMessageView::Control(
                    ServerMessageView::LeaseChanged { owner: lease.owner, epoch: lease.epoch },
                ),
                false,
            ),
        ]);
    }
}

/// What a browser types is written to the pane of its session, byte for byte, while it may
/// write; it is told where the backend failed. A browser without control has nothing
/// written, and is told so. A frame that is too large ends the connection.
pub proof fn law_keystrokes_reach_the_backend(
    browser: BrowserView,
    gateway: GatewayView,
    bytes: bytes::Bytes,
    now: nat,
    native: Result<bool, BackendError>,
    screen: Result<SnapshotView, BackendError>,
    answer: Result<(), BackendError>,
)
    ensures
        ({
            let step = browser.step(
                gateway,
                BrowserEvent::Binary(bytes),
                now,
                native,
                screen,
                answer,
            );
            let typed = crate::octets::octets(bytes);
            if !browser.lease.owns_lease {
                &&& step.gateway == gateway
                &&& !step.plan.close
                &&& step.plan.sends.len() == 1
                &&& step.plan.sends[0].0 == SocketMessageView::Control(
                    ServerMessageView::Error {
                        code: ErrorCode::Forbidden,
                        message: "controller does not own input lease"@,
                    },
                )
            } else if typed.len() > 65536 {
                &&& step.gateway == gateway
                &&& step.plan.close
            } else if gateway.may_write(browser.session, browser.controller, now) {
                &&& step.gateway.calls == gateway.calls.push(
                    BackendCall::WriteInput {
                        target: gateway.sessions[browser.session],
                        bytes: typed,
                        answer,
                    },
                )
                &&& step.gateway.leases == gateway.leases
                &&& !step.plan.close
                &&& answer is Ok ==> step.plan.sends.len() == 0
                &&& answer is Err ==> step.plan.sends.len() == 1 && step.plan.sends[0].0
                    == SocketMessageView::Control(
                    ServerMessageView::Error {
                        code: ErrorCode::Runtime,
                        message: "backend operation failed"@,
                    },
                )
            } else {
                &&& step.gateway.calls == gateway.calls
                &&& step.plan.sends.len() == 1
            }
        }),
{
}

/// A browser that takes free control at a look can type from then on, until its lease is
/// over: what it types next is written.
pub proof fn law_taken_control_lets_a_browser_type(
    browser: BrowserView,
    gateway: GatewayView,
    now: nat,
    screen: SnapshotView,
    bytes: bytes::Bytes,
    later: nat,
    answer: Result<(), BackendError>,
)
    requires
        gateway.sessions.dom().contains(browser.session),
        gateway.ttl > 0,
        now + gateway.ttl <= crate::clock::INSTANT_MAX_NANOS,
        !browser.lease.owns_lease,
        !held_by_another(gateway, browser.session, browser.controller, now),
        later < now + gateway.ttl,
        crate::octets::octets(bytes).len() <= 65536,
    ensures
        ({
            let looked = browser.step(
                gateway,
                BrowserEvent::ScreenTick,
                now,
                Ok(false),
                Ok(screen),
                answer,
            );
            let typed = looked.browser.step(
                looked.gateway,
                BrowserEvent::Binary(bytes),
                later,
                Ok(false),
                Ok(screen),
                answer,
            );
            &&& looked.browser.lease.owns_lease
            &&& looked.browser.lease.owner == LeaseOwner::Browser
            &&& typed.gateway.calls.last() == (BackendCall::WriteInput {
                target: gateway.sessions[browser.session],
                bytes: crate::octets::octets(bytes),
                answer,
            })
        }),
{
    law_browser_takes_free_control_at_a_look(
        gateway,
        browser.session,
        browser.controller,
        now,
        browser.lease,
        later,
    );
}

/// A browser that gives its lease back, as it does when its connection ends, may no longer
/// write, and anyone may take the lease. A lease of another controller, and those of other
/// sessions, stay.
pub proof fn law_leaving_browser_frees_control(
    gateway: GatewayView,
    session: Seq<char>,
    controller: ControllerRef,
    now: nat,
    other: Seq<char>,
    anyone: ControllerRef,
)
    requires
        gateway.sessions.dom().contains(session),
    ensures
        ({
            let after = gateway.released(session, controller, now);
            &&& !after.may_write(session, controller, now)
            &&& after.calls == gateway.calls
            &&& after.sessions == gateway.sessions
            &&& after.epochs == gateway.epochs
            &&& other != session ==> after.leases.dom().contains(other)
                == gateway.leases.dom().contains(other)
            &&& other != session && gateway.leases.dom().contains(other) ==> after.leases[other]
                == gateway.leases[other]
            &&& held_by_another(gateway, session, controller, now) ==> after.leases
                == gateway.leases
            &&& !held_by_another(gateway, session, controller, now) ==> !held_by_another(
                after,
                session,
                anyone,
                now,
            )
        }),
{
}

/// A browser sets the size of what it is shown by a resize and moves it by a pan: each
/// axis that is named moves, the others stay. The backend session is not touched.
pub proof fn law_browser_sets_its_own_view(
    browser: BrowserView,
    gateway: GatewayView,
    message: ClientControlMessage,
    now: nat,
    native: Result<bool, BackendError>,
    screen: Result<SnapshotView, BackendError>,
    answer: Result<(), BackendError>,
)
    ensures
        ({
            let step = browser.step(
                gateway,
                BrowserEvent::Text(Some(message)),
                now,
                native,
                screen,
                answer,
            );
            match message {
                ClientControlMessage::Resize { cols, rows } => {
                    &&& step.gateway == gateway
                    &&& step.browser.viewport matches Some(view)
                    &&& view.size.cols == cols
                    &&& view.size.rows == rows
                    &&& view.origin_col == (if browser.viewport is Some {
                        browser.viewport->0.origin_col
                    } else {
                        None
                    })
                    &&& view.origin_row == (if browser.viewport is Some {
                        browser.viewport->0.origin_row
                    } else {
                        None
                    })
                    &&& step.plan.sends.len() == 1
                    &&& step.plan.sends[0].0 matches SocketMessageView::Control(
                        ServerMessageView::SizeChanged { size },
                    ) && size.cols == cols && size.rows == rows
                },
                ClientControlMessage::Viewport { col, row } => {
                    &&& step.gateway == gateway
                    &&& step.plan.sends.len() == 0
                    &&& step.browser.viewport is Some == browser.viewport is Some
                    &&& browser.viewport matches Some(before) ==> {
                        let view = step.browser.viewport->0;
                        &&& view.size == before.size
                        &&& col matches Some(col) ==> view.origin_col == Some(col@)
                        &&& col is None ==> view.origin_col == before.origin_col
                        &&& row matches Some(row) ==> view.origin_row == Some(row@)
                        &&& row is None ==> view.origin_row == before.origin_row
                    }
                },
                ClientControlMessage::Heartbeat { .. } => {
                    &&& step.gateway == gateway
                    &&& step.plan.sends.len() == 0
                    &&& !step.plan.close
                    &&& step.browser == (BrowserView { last_message: now, ..browser })
                },
                ClientControlMessage::AcquireControl => true,
            }
        }),
{
}

/// A ping is answered with its own payload, and a frame that is no control frame ends the
/// connection as a protocol error. Whatever arrives counts as a sign of life, and nothing
/// else does. A browser that gave none for ninety seconds is closed, no sooner.
pub proof fn law_connection_is_kept_alive(
    browser: BrowserView,
    gateway: GatewayView,
    event: BrowserEvent,
    now: nat,
    native: Result<bool, BackendError>,
    screen: Result<SnapshotView, BackendError>,
    answer: Result<(), BackendError>,
)
    ensures
        ({
            let step = browser.step(gateway, event, now, native, screen, answer);
            let sends = step.plan.sends;
            &&& step.browser.last_message == (match event {
                BrowserEvent::ScreenTick
                | BrowserEvent::HeartbeatTick
                | BrowserEvent::PingTick => browser.last_message,
                _ => now,
            })
            &&& step.browser.session == browser.session
            &&& step.browser.controller == browser.controller
            &&& match event {
                BrowserEvent::Ping(bytes) => {
                    &&& sends.len() == 1
                    &&& sends[0] == (SocketMessageView::Pong(crate::octets::octets(bytes)), true)
                    &&& !step.plan.close
                },
                BrowserEvent::Pong => sends.len() == 0 && !step.plan.close,
                BrowserEvent::PingTick => {
                    &&& sends.len() == 1
                    &&& sends[0] == (SocketMessageView::Ping, true)
                    &&& !step.plan.close
                },
                BrowserEvent::Closed => sends.len() == 0 && step.plan.close,
                BrowserEvent::Text(None) => {
                    &&& step.plan.close
                    &&& sends.len() == 2
                    &&& sends[0].0 == SocketMessageView::Control(
                        ServerMessageView::Error {
                            code: ErrorCode::Protocol,
                            message: "invalid control frame"@,
                        },
                    )
                    &&& sends[1].0 == (SocketMessageView::Close {
                        code: CloseCode::Protocol,
                        reason: "invalid control frame"@,
                    })
                },
                BrowserEvent::HeartbeatTick => {
                    &&& step.plan.close == (now >= browser.last_message + 90_000_000_000)
                    &&& step.plan.close ==> sends.len() == 1 && sends[0].0 == (
                    SocketMessageView::Close {
                        code: CloseCode::Normal,
                        reason: "client heartbeat timeout"@,
                    })
                    &&& !step.plan.close ==> sends.len() == 0
                },
                _ => true,
            }
        }),
{
}

/// At every look a browser is told a change of control first, then shown a screen that has
/// changed. Where the session or its backend is gone, the connection is closed as for an
/// ended session.
pub proof fn law_look_reports_control_and_screen(
    browser: BrowserView,
    gateway: GatewayView,
    now: nat,
    native: Result<bool, BackendError>,
    screen: Result<SnapshotView, BackendError>,
    answer: Result<(), BackendError>,
)
    requires
        gateway.ttl > 0,
        now + gateway.ttl <= crate::clock::INSTANT_MAX_NANOS,
    ensures
        ({
            let step = browser.step(
                gateway,
                BrowserEvent::ScreenTick,
                now,
                native,
                screen,
                answer,
            );
            let sends = step.plan.sends;
            let lease = step.browser.lease;
            let changed = lease.owner != browser.lease.owner || lease.epoch != browser.lease.epoch;
            let gone = !gateway.sessions.dom().contains(browser.session) || native is Err
                || screen is Err;
            let told: nat = if changed {
                1
            } else {
                0
            };
            &&& step.plan.close == gone
            &&& changed ==> sends.len() > 0 && sends[0].0 == SocketMessageView::Control(
                ServerMessageView::LeaseChanged { owner: lease.owner, epoch: lease.epoch },
            )
            &&& gone ==> sends.len() == told + 1 && sends.last().0 == (SocketMessageView::Close {
                code: CloseCode::Normal,
                reason: "session ended"@,
            })
            &&& !gone ==> {
                let bytes = crate::browser::screen_octets(screen->Ok_0, browser.viewport);
                &&& step.browser.last_screen == bytes
                &&& if bytes == browser.last_screen {
                    sends.len() == told
                } else {
                    &&& sends.len() == told + 1
                    &&& sends.last() == (SocketMessageView::Binary(bytes), true)
                }
            }
        }),
{
}

/// A browser that connects is told who has control, then that replay starts, that the
/// session is ready, what is on the screen, and that replay is over.
pub proof fn law_connecting_browser_is_shown_the_screen(
    session: Seq<char>,
    lease: GatewayBrowserLease,
    screen: SnapshotView,
    viewport: Option<crate::screen::ViewportView>,
)
    ensures
        ({
            let plan = crate::browser::attach_plan(session, lease, screen, viewport);
            &&& !plan.close
            &&& plan.sends.len() == 5
            &&& plan.sends[0].0 == SocketMessageView::Control(
                ServerMessageView::LeaseChanged { owner: lease.owner, epoch: lease.epoch },
            )
            &&& plan.sends[1].0 == SocketMessageView::Control(ServerMessageView::ReplayStarted)
            &&& plan.sends[2].0 == SocketMessageView::Control(
                ServerMessageView::Ready { session },
            )
            &&& plan.sends[3].0 == SocketMessageView::Binary(
                crate::browser::screen_octets(screen, viewport),
            )
            &&& plan.sends[4].0 == SocketMessageView::Control(ServerMessageView::ReplayFinished)
        }),
{
}

/// A session is created once: its id then stands for the pane that the backend found, and
/// nothing else changes. A taken id, or a backend that fails, registers nothing.
pub proof fn law_created_session_stands_for_its_pane(
    before: GatewayView,
    session: Seq<char>,
    name: Seq<char>,
    size: TerminalSize,
    r: Result<(), SessionGatewayError>,
    after: GatewayView,
    other: Seq<char>,
)
    requires
        before.session_created(session, name, size, r, after),
    ensures
        before.sessions.dom().contains(session) ==> r is Err && after == before,
        !before.sessions.dom().contains(session) ==> {
            &&& after.calls.len() == before.calls.len() + 1
            &&& after.calls.last() matches BackendCall::CreateOrFind {
                session: asked,
                size: given,
                found,
            }
            &&& asked == name
            &&& given == size
            &&& r is Ok <==> found is Ok
            &&& after.sessions.dom().contains(session) <==> found is Ok
            &&& found matches Ok(target) ==> after.sessions[session] == target
        },
        other != session ==> after.sessions.dom().contains(other) == before.sessions.dom().contains(
            other,
        ),
        after.leases == before.leases,
        after.epochs == before.epochs,
        after.ttl == before.ttl,
{
    let found = match after.calls.last() {
        BackendCall::CreateOrFind { found, .. } => found,
        _ => Err(BackendError::Unavailable),
    };
    let call = BackendCall::CreateOrFind { session: name, size, found };
    assert(before.calls.push(call).last() == call);
}

/// A pane that is registered is the one that the id stands for, where the id was free.
pub proof fn law_registered_pane_is_used(
    before: GatewayView,
    session: Seq<char>,
    target: SessionRefView,
    r: Result<(), SessionGatewayError>,
    after: GatewayView,
)
    requires
        before.session_registered(session, target, r, after),
    ensures
        r is Ok <==> !before.sessions.dom().contains(session),
        r is Ok ==> after.sessions.dom().contains(session) && after.sessions[session] == target,
        r is Err ==> after == before,
        after.calls == before.calls,
        after.leases == before.leases,
{
}

/// A controller that acquires a session can write to it at once, and one that releases it
/// cannot any more; neither asks anything of the backend.
pub proof fn law_acquired_session_is_writable_until_released(
    before: GatewayView,
    session: Seq<char>,
    controller: ControllerRef,
    now: nat,
    lease: OperationLease,
    held: GatewayView,
    later: nat,
    r: Result<OperationLease, SessionGatewayError>,
    after: GatewayView,
)
    requires
        before.controller_acquired(session, controller, now, Ok(lease), held),
        held.controller_released(session, controller, later, r, after),
        later < now + before.ttl,
    ensures
        held.may_write(session, controller, later),
        r matches Ok(ended) && ended@ == lease@,
        !after.may_write(session, controller, later),
        held.calls == before.calls,
        after.calls == before.calls,
        held.sessions == before.sessions,
        after.sessions == before.sessions,
        after.leases == before.leases.remove(session),
{
    assert(before.leases.insert(session, lease@).remove(session) =~= before.leases.remove(session));
}

/// A closed session is gone: the backend was asked to close its pane, its id is free, nobody
/// has a lease of it, and its leases start over. One that cannot be closed stays as it is.
pub proof fn law_closed_session_is_gone(
    before: GatewayView,
    session: Seq<char>,
    r: Result<SessionRecord, SessionGatewayError>,
    after: GatewayView,
    now: nat,
)
    requires
        before.session_closed(session, r, after),
    ensures
        before.sessions.dom().contains(session) ==> {
            &&& after.calls.len() == before.calls.len() + 1
            &&& after.calls.last() matches BackendCall::Close { target, answer }
            &&& target == before.sessions[session]
            &&& r is Ok <==> answer is Ok
        },
        r is Ok ==> {
            &&& !after.sessions.dom().contains(session)
            &&& !crate::operation_lock::leased(after.leases, session, now)
            &&& crate::operation_lock::next_epoch(after.epochs, session) == 0
        },
        r is Err ==> after.sessions == before.sessions && after.leases == before.leases
            && after.epochs == before.epochs,
{
    let answer = after.calls.last().outcome();
    let call = BackendCall::Close { target: before.sessions[session], answer };
    assert(before.calls.push(call).last() == call);
}

/// A write asks the backend for the thing itself, once, in the pane of the session, and comes
/// out as the backend answers; a refused one asks nothing.
pub proof fn law_write_comes_out_as_the_backend_answers(
    before: GatewayView,
    session: Seq<char>,
    controller: ControllerRef,
    now: nat,
    text: Seq<char>,
    r: Result<OperationLease, SessionGatewayError>,
    after: GatewayView,
)
    requires
        before.written(
            session,
            controller,
            now,
            |target: SessionRefView, answer: Result<(), BackendError>|
                BackendCall::SendText { target, text, answer },
            r,
            after,
        ),
    ensures
        before.may_write(session, controller, now) ==> {
            &&& after.calls.len() == before.calls.len() + 1
            &&& after.calls.last() matches BackendCall::SendText { target, text: typed, answer }
            &&& target == before.sessions[session]
            &&& typed == text
            &&& r is Ok <==> answer is Ok
            &&& r matches Ok(lease) ==> lease@ == before.leases[session]
        },
        !before.may_write(session, controller, now) ==> r is Err && after.calls == before.calls,
        after.sessions == before.sessions,
        after.epochs == before.epochs,
{
    if before.may_write(session, controller, now) {
        let answer = after.calls.last().outcome();
        let call = BackendCall::SendText { target: before.sessions[session], text, answer };
        assert(before.calls.push(call).last() == call);
    }
}

/// A session is served while it can be read and the user does not interrupt; browsers are
/// given time to learn that it has ended.
pub proof fn law_session_is_served_while_it_can_be_read(event: ServingEvent)
    ensures
        match event {
            ServingEvent::Interrupted => crate::session_gateway::next_serving_step(event)
                == ServingStep::Stop,
            ServingEvent::Read(screen) => crate::session_gateway::next_serving_step(event)
                == if screen is Ok {
                ServingStep::Continue
            } else {
                ServingStep::StopAfterPause
            },
        },
{
}

/// A browser that asked for no part of the screen is shown all of it from the first cell on,
/// and one that did is shown that part.
pub proof fn law_browser_is_shown_its_view(
    screen: SnapshotView,
    viewport: crate::screen::ViewportView,
)
    ensures
        crate::browser::screen_octets(screen, Some(viewport)) == vstd::utf8::encode_utf8(
            crate::screen::screen_text(screen, viewport),
        ),
        viewport.size == screen.size && viewport.origin_col is None && viewport.origin_row is None
            ==> crate::browser::screen_octets(screen, None) == crate::browser::screen_octets(
            screen,
            Some(viewport),
        ),
{
}

/// A browser that cannot be given control is told why: the session is not there, the backend
/// failed, or no lease can be given for such a time.
pub proof fn law_browser_failures_are_told(
    gateway: GatewayView,
    session: Seq<char>,
    controller: ControllerRef,
    now: nat,
    native: Result<bool, BackendError>,
    screen: Result<SnapshotView, BackendError>,
    error: SessionGatewayError,
)
    requires
        gateway.attach_error(session, controller, now, native, screen, error),
    ensures
        error is Registry <==> !gateway.sessions.dom().contains(session),
        gateway.sessions.dom().contains(session) ==> {
            &&& native matches Err(failure) ==> error == SessionGatewayError::Backend(failure)
            &&& native is Ok && error is Backend ==> screen is Err && error
                == SessionGatewayError::Backend(screen->Err_0)
            &&& error is Lock ==> (if gateway.ttl == 0 {
                error == SessionGatewayError::Lock(
                    crate::operation_lock::OperationLockError::InvalidLeaseTtl,
                )
            } else {
                error == SessionGatewayError::Lock(
                    crate::operation_lock::OperationLockError::LeaseExpirationOverflow,
                )
            })
            &&& native == Ok::<bool, BackendError>(true) ==> error is Backend
            &&& gateway.ttl > 0 && now + gateway.ttl <= crate::clock::INSTANT_MAX_NANOS
                ==> error is Backend
        },
{
}

/// A lease is refused to a controller for one reason at a time: the session is not registered,
/// no lease can last, it would last too long, or another controller holds one. Whoever is
/// refused changes nothing.
pub proof fn law_refused_lease_changes_nothing(
    before: GatewayView,
    session: Seq<char>,
    controller: ControllerRef,
    now: nat,
    error: SessionGatewayError,
    after: GatewayView,
)
    requires
        before.controller_acquired(session, controller, now, Err(error), after),
    ensures
        after.sessions == before.sessions,
        after.leases == before.leases,
        after.epochs == before.epochs,
        after.calls == before.calls,
        after.ttl == before.ttl,
        error is Registry <==> !before.sessions.dom().contains(session),
        error is Lock <==> before.sessions.dom().contains(session),
        before.sessions.dom().contains(session) && before.ttl > 0 && now + before.ttl
            <= crate::clock::INSTANT_MAX_NANOS ==> {
            &&& before.leases.dom().contains(session)
            &&& now < before.leases[session].expires_at
            &&& before.leases[session].owner != controller
            &&& error matches SessionGatewayError::Lock(OperationLockError::LeaseConflict {
                session: name,
                owner,
            }) && name@ == session && owner == before.leases[session].owner
        },
{
}

/// Only the owner of a lease can give it up. To anybody else the owner is named, and the
/// leases stay as they were, but for the one of the session where its time is over.
pub proof fn law_strangers_cannot_release(
    before: GatewayView,
    session: Seq<char>,
    controller: ControllerRef,
    now: nat,
    r: Result<OperationLease, SessionGatewayError>,
    after: GatewayView,
    other: Seq<char>,
)
    requires
        before.controller_released(session, controller, now, r, after),
    ensures
        r is Ok <==> before.sessions.dom().contains(session) && before.leases.dom().contains(session)
            && now < before.leases[session].expires_at && before.leases[session].owner == controller,
        after.sessions == before.sessions,
        after.epochs == before.epochs,
        after.calls == before.calls,
        r is Err && before.sessions.dom().contains(session) && before.leases.dom().contains(session)
            && now < before.leases[session].expires_at ==> {
            &&& after.leases == before.leases
            &&& r->Err_0 matches SessionGatewayError::Lock(OperationLockError::NotLeaseOwner {
                session: name,
                owner,
            }) && name@ == session && owner == Some(before.leases[session].owner)
        },
        other != session ==> (after.leases.dom().contains(other) <==> before.leases.dom().contains(
            other,
        )),
        other != session && before.leases.dom().contains(other) ==> after.leases[other]
            == before.leases[other],
{
}

/// What the backend answered to a question is what it answered in that call.
pub proof fn law_answers_stand_in_the_calls(
    calls: Seq<BackendCall>,
    i: int,
    call: BackendCall,
    attached: Result<bool, BackendError>,
    screen: Result<SnapshotView, BackendError>,
)
    requires
        0 <= i < calls.len(),
        calls[i] == call,
    ensures
        call matches BackendCall::HasNativeClient { attached: told, .. } ==> told == attached
            ==> crate::browser::native_answer(calls, i) == attached,
        call matches BackendCall::ReadScreen { screen: told, .. } ==> told == screen
            ==> crate::browser::screen_answer(calls, i) == screen,
{
}

/// Browsers are told who is in control by the kind of the controller: a browser, an agent, or
/// the terminal behind a transport.
pub proof fn law_owner_is_told_by_kind(controller: ControllerRef)
    ensures
        crate::browser::owner_of(controller) is Browser <==> controller@.0 is Browser,
        crate::browser::owner_of(controller) is Agent <==> controller@.0 is Agent,
        crate::browser::owner_of(controller) is Terminal <==> controller@.0 is Transport,
{
}

/// What the backend fails with when a session is created or closed is what comes back, and
/// the sessions stay as they were.
pub proof fn law_backend_failures_come_back(
    before: GatewayView,
    session: Seq<char>,
    name: Seq<char>,
    size: TerminalSize,
    created: Result<(), SessionGatewayError>,
    closed: Result<SessionRecord, SessionGatewayError>,
    after: GatewayView,
    failure: BackendError,
)
    ensures
        before.session_created(session, name, size, created, after)
            && !before.sessions.dom().contains(session) && after.calls.last()
            == (BackendCall::CreateOrFind { session: name, size, found: Err(failure) }) ==> created
            == Err::<(), SessionGatewayError>(SessionGatewayError::Backend(failure))
            && after.sessions == before.sessions,
        before.session_closed(session, closed, after) && before.sessions.dom().contains(session)
            && after.calls.last() == (BackendCall::Close {
            target: before.sessions[session],
            answer: Err(failure),
        }) ==> closed == Err::<SessionRecord, SessionGatewayError>(
            SessionGatewayError::Backend(failure),
        ) && after.sessions == before.sessions && after.leases == before.leases,
{
}

/// What a write was answered is what the backend answered in that call.
pub proof fn law_written_is_answered_in_the_call(
    calls: Seq<BackendCall>,
    i: int,
    answer: Result<(), BackendError>,
)
    requires
        0 <= i < calls.len(),
    ensures
        calls[i] matches BackendCall::WriteInput { answer: told, .. } ==> told == answer
            ==> crate::browser::write_answer(calls, i) == answer,
        calls[i] matches BackendCall::Resize { answer: told, .. } ==> told == answer
            ==> crate::browser::write_answer(calls, i) == answer,
        calls[i] matches BackendCall::Close { answer: told, .. } ==> told == answer
            ==> crate::browser::write_answer(calls, i) == answer,
{
}

/// A connection is closed by one close frame, with its code and reason, and nothing follows.
pub proof fn law_closing_sends_one_close_frame(
    frame: CloseFrame,
    code: CloseCode,
    reason: Seq<char>,
)
    requires
        crate::browser::is_close(frame, code, reason),
    ensures
        frame.code == code,
        frame.reason@ == reason,
        crate::browser::closing(frame).close,
        crate::browser::closing(frame).sends.len() == 1,
        crate::browser::closing(frame).sends[0].0 matches SocketMessageView::Close {
            code: sent,
            reason: told,
        } && sent == code && told == reason,
{
}

/// A browser that takes control uses up the number of its lease: whoever comes next for the
/// session gets the number behind it. Other sessions keep their leases and numbers, and the
/// backend was asked for native clients, once.
pub proof fn law_taken_control_uses_up_its_number(
    gateway: GatewayView,
    session: Seq<char>,
    controller: ControllerRef,
    now: nat,
    current: GatewayBrowserLease,
    other: Seq<char>,
)
    requires
        gateway.sessions.dom().contains(session),
        !current.owns_lease,
        other != session,
    ensures
        ({
            let (lease, after) = gateway.browser_next(
                session,
                controller,
                now,
                current,
                Ok(false),
            );
            &&& lease matches Some(taken) ==> taken.owns_lease ==> {
                &&& after.epochs.dom().contains(session)
                &&& taken.epoch < u64::MAX ==> after.epochs[session] == taken.epoch + 1
                &&& gateway.epochs.dom().contains(session) ==> taken.epoch == gateway.epochs[session]
                &&& !gateway.epochs.dom().contains(session) ==> taken.epoch == 0
            }
            &&& lease matches Some(refused) ==> !refused.owns_lease ==> {
                &&& after.epochs == gateway.epochs
                &&& refused.epoch == current.epoch
            }
            &&& after.epochs.dom().contains(other) <==> gateway.epochs.dom().contains(other)
            &&& gateway.epochs.dom().contains(other) ==> after.epochs[other] == gateway.epochs[other]
            &&& after.leases.dom().contains(other) <==> gateway.leases.dom().contains(other)
            &&& gateway.leases.dom().contains(other) ==> after.leases[other] == gateway.leases[other]
            &&& after.calls.len() == gateway.calls.len() + 1
            &&& after.calls.last() matches BackendCall::HasNativeClient { target, .. } && target
                == gateway.sessions[session]
            &&& after.sessions == gateway.sessions
        }),
{
}

/// A look at a lease drops it where its time is over, and changes nothing else.
pub proof fn law_look_drops_what_is_over(
    gateway: GatewayView,
    session: Seq<char>,
    now: nat,
    other: Seq<char>,
)
    requires
        gateway.sessions.dom().contains(session),
        other != session,
    ensures
        ({
            let after = gateway.inspected(session, now);
            &&& after.leases.dom().contains(session) <==> gateway.leases.dom().contains(session)
                && now < gateway.leases[session].expires_at
            &&& after.leases.dom().contains(session) ==> after.leases[session]
                == gateway.leases[session]
            &&& after.leases.dom().contains(other) <==> gateway.leases.dom().contains(other)
            &&& gateway.leases.dom().contains(other) ==> after.leases[other] == gateway.leases[other]
            &&& after.epochs == gateway.epochs
            &&& after.sessions == gateway.sessions
            &&& after.calls == gateway.calls
        }),
{
}

} // verus!
