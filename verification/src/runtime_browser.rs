//! Browser connections to the runtime session actor.

use bytes::Bytes;
use vstd::prelude::*;

use crate::browser::{
    CloseCode, CloseFrame, PlanView, SocketMessage, SocketMessageView, SocketPlan,
};
use crate::clock::Instant;
use crate::protocol::{
    ClientControlMessage, ErrorCode, SafeMessage, ServerControlMessage, ServerMessageView,
    TerminalSize,
};
use crate::runtime::{ClientId, OutputView, ReasonView, RuntimeCommand};
use crate::tunnel::{
    RuntimeTunnelAction, TunnelCloseReason, TunnelFrame, TunnelRuntimeControl,
    TunnelTerminalPayload,
};

verus! {

/// The reason that a browser is told when its session closes.
pub open spec fn close_text(reason: ReasonView) -> Seq<char> {
    match reason {
        ReasonView::Supervisor => "server shutting down"@,
        ReasonView::ClientDisconnect => "client disconnected"@,
        ReasonView::ControllerReplaced => "controller replaced"@,
        ReasonView::ChildExit => "session ended"@,
        ReasonView::RuntimeError(_) => "runtime error"@,
    }
}

/// The close frame for a close reason.
pub fn close_frame_for_tunnel_reason(reason: &TunnelCloseReason) -> (r: CloseFrame)
    ensures
        crate::browser::is_close(r, CloseCode::Normal, close_text(reason@)),
{
    let reason = match reason {
        TunnelCloseReason::Supervisor => "server shutting down",
        TunnelCloseReason::ClientDisconnect => "client disconnected",
        TunnelCloseReason::ControllerReplaced => "controller replaced",
        TunnelCloseReason::ChildExit => "session ended",
        TunnelCloseReason::RuntimeError(_) => "runtime error",
    };
    CloseFrame { code: CloseCode::Normal, reason }
}

/// What a browser is sent for a frame of the runtime side. Frames that only the
/// web side sends are a protocol error.
pub open spec fn frame_plan(frame: TunnelFrame) -> PlanView {
    match frame {
        TunnelFrame::PtyOutput { bytes } => PlanView::nothing().must(
            SocketMessageView::Binary(bytes@),
        ),
        TunnelFrame::RuntimeControl {
            control: TunnelRuntimeControl::Server { message },
            ..
        } => PlanView::nothing().must(SocketMessageView::Control(message@)),
        TunnelFrame::RuntimeControl {
            control: TunnelRuntimeControl::Closed { reason },
            ..
        } => {
            let close = SocketMessageView::Close {
                code: CloseCode::Normal,
                reason: close_text(reason@),
            };
            if reason is ChildExit {
                PlanView::nothing().tell(
                    SocketMessageView::Control(
                        ServerMessageView::ProcessExited {
                            message: "The terminal process exited."@,
                        },
                    ),
                ).tell(close).end()
            } else {
                PlanView::nothing().tell(close).end()
            }
        },
        TunnelFrame::Heartbeat { .. } => PlanView::nothing(),
        _ => PlanView::nothing().must(
            crate::browser::error_message(ErrorCode::Protocol, "invalid control frame"@),
        ).tell(
            SocketMessageView::Close {
                code: CloseCode::Protocol,
                reason: "invalid control frame"@,
            },
        ).end(),
    }
}

/// What to send to a browser for a frame of the runtime side.
pub fn browser_plan(frame: TunnelFrame) -> (r: SocketPlan)
    ensures
        r@ == frame_plan(frame),
{
    match frame {
        TunnelFrame::PtyOutput { bytes } => SocketPlan::nothing().must(
            SocketMessage::Binary(bytes.into_bytes()),
        ),
        TunnelFrame::RuntimeControl { control, .. } => match control {
            TunnelRuntimeControl::Server { message } => SocketPlan::nothing().must(
                SocketMessage::Control(message),
            ),
            TunnelRuntimeControl::Closed { reason } => {
                let close = SocketMessage::Close(close_frame_for_tunnel_reason(&reason));
                let plan = match reason {
                    TunnelCloseReason::ChildExit => SocketPlan::nothing().tell(
                        SocketMessage::Control(
                            ServerControlMessage::ProcessExited {
                                message: SafeMessage::from_static("The terminal process exited."),
                            },
                        ),
                    ),
                    _ => SocketPlan::nothing(),
                };
                plan.tell(close).end()
            },
        },
        TunnelFrame::Heartbeat { .. } => SocketPlan::nothing(),
        TunnelFrame::RegisterSession { .. }
        | TunnelFrame::AttachBrowser { .. }
        | TunnelFrame::DetachBrowser { .. }
        | TunnelFrame::BrowserAcquireControl { .. }
        | TunnelFrame::BrowserInput { .. }
        | TunnelFrame::BrowserResize { .. } => SocketPlan::nothing().must(
            SocketMessage::Control(
                ServerControlMessage::Error {
                    code: ErrorCode::Protocol,
                    message: SafeMessage::from_static("invalid control frame"),
                },
            ),
        ).tell(SocketMessage::Close(crate::browser::protocol_close())).end(),
    }
}

/// What a browser is sent for several frames, up to the first that ends the
/// connection.
pub open spec fn frames_plan(frames: Seq<TunnelFrame>) -> PlanView
    decreases frames.len(),
{
    if frames.len() == 0 {
        PlanView::nothing()
    } else {
        frames_plan(frames.drop_last()).followed_by(frame_plan(frames.last()))
    }
}

/// What to send to a browser when the runtime side has finished and left
/// `frames`: those frames, then the close.
pub fn completion_plan(frames: Vec<TunnelFrame>) -> (r: SocketPlan)
    ensures
        r@ == frames_plan(frames@).followed_by(crate::browser::session_gone()),
{
    let ghost all = frames@;
    let mut left = frames;
    let mut reversed: Vec<TunnelFrame> = Vec::new();
    while left.len() > 0
        invariant
            all.len() == left@.len() + reversed@.len(),
            left@ == all.take(left@.len() as int),
            forall|k: int|
                0 <= k < reversed@.len() ==> #[trigger] reversed@[k] == all[all.len() - 1 - k],
        decreases left@.len(),
    {
        let ghost before = left@;
        match left.pop() {
            Some(frame) => {
                proof {
                    assert(before.last() == all[before.len() - 1]);
                    assert(left@ =~= all.take(left@.len() as int));
                }
                reversed.push(frame);
            },
            None => {},
        }
    }
    let mut plan = SocketPlan::nothing();
    proof {
        assert(all.take(0).len() == 0);
    }
    while reversed.len() > 0
        invariant
            reversed@.len() <= all.len(),
            forall|k: int|
                0 <= k < reversed@.len() ==> #[trigger] reversed@[k] == all[all.len() - 1 - k],
            plan@ == frames_plan(all.take(all.len() - reversed@.len())),
        decreases reversed@.len(),
    {
        let ghost done = all.take(all.len() - reversed@.len());
        let ghost n = reversed@.len();
        match reversed.pop() {
            Some(frame) => {
                proof {
                    let more = all.take(all.len() - n + 1);
                    assert(frame == all[all.len() - n]);
                    assert(more.drop_last() =~= done);
                    assert(more.last() == frame);
                }
                plan = plan.followed_by(browser_plan(frame));
            },
            None => {},
        }
    }
    proof {
        assert(all.take(all.len() as int) =~= all);
    }
    plan.followed_by(SocketPlan::closing(crate::browser::runtime_unavailable_close()))
}

/// What happens to the connection of a browser.
pub enum RuntimeBrowserEvent {
    /// Terminal bytes arrived.
    Binary(Bytes),
    /// A control frame arrived, or a text that is none.
    Text(Option<ClientControlMessage>),
    /// A ping arrived.
    Ping(Bytes),
    /// A pong arrived.
    Pong,
    /// A close frame arrived, or the connection failed.
    Closed,
    /// A frame of the runtime side arrived, or no more can.
    Tunnel(Option<TunnelFrame>),
    /// The runtime side has finished and left these frames, or it has failed.
    BridgeEnded(Option<Vec<TunnelFrame>>),
    /// It is time to look for silence.
    HeartbeatTick,
    /// It is time to ping.
    PingTick,
}

/// What to do about an event.
pub struct RuntimeBrowserStep {
    /// Frame for the runtime side. Where it cannot be sent, the connection is
    /// closed as for an ended session.
    pub forward: Option<TunnelFrame>,
    /// What to send to the browser.
    pub plan: SocketPlan,
}

/// The frame for the runtime side that a control frame of a browser gives.
pub open spec fn forwarded(client_id: ClientId, message: ClientControlMessage) -> Option<
    TunnelFrame,
> {
    match message {
        ClientControlMessage::AcquireControl => Some(
            TunnelFrame::BrowserAcquireControl { client_id },
        ),
        ClientControlMessage::Resize { cols, rows } => Some(
            TunnelFrame::BrowserResize { client_id, size: TerminalSize { cols, rows } },
        ),
        ClientControlMessage::Viewport { .. } => None,
        ClientControlMessage::Heartbeat { sequence } => Some(TunnelFrame::Heartbeat { sequence }),
    }
}

/// Connection of a browser to the runtime session actor.
pub struct RuntimeBrowser {
    client_id: ClientId,
    last_message: Instant,
}

impl View for RuntimeBrowser {
    type V = (ClientId, nat);

    closed spec fn view(&self) -> (ClientId, nat) {
        (self.client_id, self.last_message@)
    }
}

/// Tells whether a step only sends `plan` to the browser.
pub open spec fn only_sends(step: RuntimeBrowserStep, plan: PlanView) -> bool {
    step.forward is None && step.plan@ == plan
}

/// Tells whether a connection `before` that meets `event` at `now` does `step` and is then
/// `after`.
pub open spec fn stepped(
    before: (ClientId, nat),
    event: RuntimeBrowserEvent,
    now: nat,
    after: (ClientId, nat),
    step: RuntimeBrowserStep,
) -> bool {
    &&& after == (
        before.0,
        if event is Binary || event is Text || event is Ping || event is Pong {
            now
        } else {
            before.1
        },
    )
    &&& match event {
        RuntimeBrowserEvent::Binary(bytes) => {
            let input = crate::octets::octets(bytes);
            if input.len() > crate::tunnel::TUNNEL_TERMINAL_PAYLOAD_MAX_BYTES {
                only_sends(step, crate::browser::rejected_frame())
            } else {
                &&& step.plan@ == PlanView::nothing()
                &&& step.forward matches Some(
                    TunnelFrame::BrowserInput { client_id, bytes: payload },
                )
                &&& client_id == before.0
                &&& payload@ == input
            }
        },
        RuntimeBrowserEvent::Text(None) => only_sends(
            step,
            crate::browser::rejected_frame(),
        ),
        RuntimeBrowserEvent::Text(Some(message)) => {
            &&& step.forward == forwarded(before.0, message)
            &&& step.plan@ == PlanView::nothing()
        },
        RuntimeBrowserEvent::Ping(bytes) => only_sends(
            step,
            PlanView::nothing().must(
                SocketMessageView::Pong(crate::octets::octets(bytes)),
            ),
        ),
        RuntimeBrowserEvent::Pong => only_sends(step, PlanView::nothing()),
        RuntimeBrowserEvent::Closed => only_sends(step, PlanView::nothing().end()),
        RuntimeBrowserEvent::Tunnel(Some(frame)) => only_sends(step, frame_plan(frame)),
        RuntimeBrowserEvent::Tunnel(None) => only_sends(
            step,
            crate::browser::session_gone(),
        ),
        RuntimeBrowserEvent::BridgeEnded(Some(frames)) => only_sends(
            step,
            frames_plan(frames@).followed_by(crate::browser::session_gone()),
        ),
        RuntimeBrowserEvent::BridgeEnded(None) => only_sends(
            step,
            crate::browser::session_gone(),
        ),
        RuntimeBrowserEvent::HeartbeatTick => only_sends(
            step,
            if crate::browser::silent(before.1, now) {
                crate::browser::closed_with(
                    CloseCode::Normal,
                    "client heartbeat timeout"@,
                )
            } else {
                PlanView::nothing()
            },
        ),
        RuntimeBrowserEvent::PingTick => only_sends(
            step,
            PlanView::nothing().must(SocketMessageView::Ping),
        ),
    }
}

impl RuntimeBrowser {
    /// The connection of a browser that was just attached.
    pub fn new(client_id: ClientId, now: Instant) -> (r: Self)
        ensures
            r@ == (client_id, now@),
    {
        RuntimeBrowser { client_id, last_message: now }
    }

    /// The first frame for the runtime side.
    pub fn attach_frame(&self) -> (r: TunnelFrame)
        ensures
            r == (TunnelFrame::AttachBrowser { client_id: self@.0 }),
    {
        TunnelFrame::AttachBrowser { client_id: self.client_id }
    }

    /// Takes an event of the connection and tells what to do.
    pub fn step(&mut self, event: RuntimeBrowserEvent, now: Instant) -> (r: RuntimeBrowserStep)
        ensures
            stepped(old(self)@, event, now@, final(self)@, r),
    {
        let mut forward: Option<TunnelFrame> = None;
        let mut plan = SocketPlan::nothing();
        match event {
            RuntimeBrowserEvent::Binary(bytes) => {
                self.last_message = now;
                match TunnelTerminalPayload::new(bytes) {
                    Ok(bytes) => {
                        forward = Some(
                            TunnelFrame::BrowserInput { client_id: self.client_id, bytes },
                        );
                    },
                    Err(_) => {
                        plan = crate::browser::reject_frame();
                    },
                }
            },
            RuntimeBrowserEvent::Text(message) => {
                self.last_message = now;
                match message {
                    Some(message) => {
                        forward = frame_from_message(self.client_id, message);
                    },
                    None => {
                        plan = crate::browser::reject_frame();
                    },
                }
            },
            RuntimeBrowserEvent::Ping(bytes) => {
                self.last_message = now;
                plan = plan.must(SocketMessage::Pong(bytes));
            },
            RuntimeBrowserEvent::Pong => {
                self.last_message = now;
            },
            RuntimeBrowserEvent::Closed => {
                plan = plan.end();
            },
            RuntimeBrowserEvent::Tunnel(frame) => {
                plan = match frame {
                    Some(frame) => browser_plan(frame),
                    None => SocketPlan::closing(crate::browser::runtime_unavailable_close()),
                };
            },
            RuntimeBrowserEvent::BridgeEnded(frames) => {
                plan = match frames {
                    Some(frames) => completion_plan(frames),
                    None => SocketPlan::closing(crate::browser::runtime_unavailable_close()),
                };
            },
            RuntimeBrowserEvent::HeartbeatTick => {
                if crate::browser::is_silent(self.last_message, now) {
                    plan = SocketPlan::closing(crate::browser::client_timeout_close());
                }
            },
            RuntimeBrowserEvent::PingTick => {
                plan = plan.must(SocketMessage::Ping);
            },
        }
        RuntimeBrowserStep { forward, plan }
    }

    /// What to send to the browser where a frame for the runtime side could not be
    /// sent.
    pub fn tunnel_lost() -> (r: SocketPlan)
        ensures
            r@ == crate::browser::session_gone(),
    {
        SocketPlan::closing(crate::browser::runtime_unavailable_close())
    }
}

/// The frame for the runtime side that a control frame of a browser gives.
pub fn frame_from_message(client_id: ClientId, message: ClientControlMessage) -> (r: Option<
    TunnelFrame,
>)
    ensures
        r == forwarded(client_id, message),
{
    match message {
        ClientControlMessage::AcquireControl => Some(
            TunnelFrame::BrowserAcquireControl { client_id },
        ),
        ClientControlMessage::Resize { cols, rows } => Some(
            TunnelFrame::BrowserResize { client_id, size: TerminalSize { cols, rows } },
        ),
        ClientControlMessage::Viewport { .. } => None,
        ClientControlMessage::Heartbeat { sequence } => Some(TunnelFrame::Heartbeat { sequence }),
    }
}

/// What a browser types or asks for is carried to the runtime in its name: the runtime takes
/// the same bytes, the control, or the size that was asked for, from the client that asked.
/// Only a moved view and a sign of life ask nothing of the runtime.
pub proof fn law_browser_reaches_the_runtime(
    before: (ClientId, nat),
    event: RuntimeBrowserEvent,
    now: nat,
    after: (ClientId, nat),
    step: RuntimeBrowserStep,
    frame: TunnelFrame,
    action: RuntimeTunnelAction,
)
    requires
        stepped(before, event, now, after, step),
        step.forward == Some(frame),
        crate::tunnel::frame_action(frame, action),
    ensures
        match event {
            RuntimeBrowserEvent::Binary(bytes) => {
                &&& crate::octets::octets(bytes).len() <= 65536
                &&& action matches RuntimeTunnelAction::Command(
                    RuntimeCommand::Input { client_id, bytes: input },
                )
                &&& client_id == before.0
                &&& crate::octets::octets(input) == crate::octets::octets(bytes)
            },
            RuntimeBrowserEvent::Text(Some(ClientControlMessage::AcquireControl)) => {
                &&& action matches RuntimeTunnelAction::Command(
                    RuntimeCommand::AcquireControl { client_id },
                )
                &&& client_id == before.0
            },
            RuntimeBrowserEvent::Text(Some(ClientControlMessage::Resize { cols, rows })) => {
                &&& action matches RuntimeTunnelAction::Command(
                    RuntimeCommand::BrowserResize { client_id, size },
                )
                &&& client_id == before.0
                &&& size.cols == cols
                &&& size.rows == rows
            },
            RuntimeBrowserEvent::Text(Some(ClientControlMessage::Heartbeat { sequence })) => {
                &&& action is Nothing
                &&& frame == TunnelFrame::Heartbeat { sequence }
            },
            _ => false,
        },
{
}

/// A browser is forwarded whatever it sends that fits a frame, and is told that it broke the
/// protocol where it does not.
pub proof fn law_browser_frames_are_forwarded_or_refused(
    before: (ClientId, nat),
    event: RuntimeBrowserEvent,
    now: nat,
    after: (ClientId, nat),
    step: RuntimeBrowserStep,
)
    requires
        stepped(before, event, now, after, step),
    ensures
        match event {
            RuntimeBrowserEvent::Binary(bytes) => {
                let fits = crate::octets::octets(bytes).len() <= 65536;
                &&& step.forward is Some == fits
                &&& step.plan@.close == !fits
                &&& step.plan@.sends.len() == (if fits {
                    0int
                } else {
                    2
                })
            },
            RuntimeBrowserEvent::Text(None) => {
                let sends = step.plan@.sends;
                &&& step.forward is None
                &&& step.plan@.close
                &&& sends.len() == 2
                &&& sends[0].0 == SocketMessageView::Control(
                    ServerMessageView::Error {
                        code: ErrorCode::Protocol,
                        message: "invalid control frame"@,
                    },
                )
                &&& sends[1].0 == (SocketMessageView::Close {
                    code: CloseCode::Protocol,
                    reason: "invalid control frame"@,
                })
            },
            RuntimeBrowserEvent::Text(Some(message)) => {
                &&& step.forward is None == message is Viewport
                &&& step.plan@.sends.len() == 0
                &&& !step.plan@.close
            },
            _ => step.forward is None,
        },
{
}

/// A connection lasts while the browser is heard of, is pinged, and answers pings; a browser
/// that was silent for 90 seconds is closed.
pub proof fn law_runtime_connection_is_kept_alive(
    before: (ClientId, nat),
    event: RuntimeBrowserEvent,
    now: nat,
    after: (ClientId, nat),
    step: RuntimeBrowserStep,
)
    requires
        stepped(before, event, now, after, step),
    ensures
        after.0 == before.0,
        after.1 == (match event {
            RuntimeBrowserEvent::Binary(_)
            | RuntimeBrowserEvent::Text(_)
            | RuntimeBrowserEvent::Ping(_)
            | RuntimeBrowserEvent::Pong => now,
            _ => before.1,
        }),
        match event {
            RuntimeBrowserEvent::Ping(bytes) => {
                &&& step.plan@.sends.len() == 1
                &&& step.plan@.sends[0] == (
                    SocketMessageView::Pong(crate::octets::octets(bytes)),
                    true,
                )
                &&& !step.plan@.close
            },
            RuntimeBrowserEvent::PingTick => {
                &&& step.plan@.sends.len() == 1
                &&& step.plan@.sends[0] == (SocketMessageView::Ping, true)
                &&& !step.plan@.close
            },
            RuntimeBrowserEvent::Pong => step.plan@.sends.len() == 0 && !step.plan@.close,
            RuntimeBrowserEvent::Closed => step.plan@.sends.len() == 0 && step.plan@.close,
            RuntimeBrowserEvent::HeartbeatTick => {
                &&& step.plan@.close == (now >= before.1 + 90_000_000_000)
                &&& step.plan@.close ==> step.plan@.sends.len() == 1 && step.plan@.sends[0].0 == (
                SocketMessageView::Close {
                    code: CloseCode::Normal,
                    reason: "client heartbeat timeout"@,
                })
                &&& !step.plan@.close ==> step.plan@.sends.len() == 0
            },
            RuntimeBrowserEvent::Tunnel(None) | RuntimeBrowserEvent::BridgeEnded(None) => {
                &&& step.plan@.close
                &&& step.plan@.sends.len() == 1
                &&& step.plan@.sends[0].0 == (SocketMessageView::Close {
                    code: CloseCode::Normal,
                    reason: "session ended"@,
                })
            },
            _ => true,
        },
{
}

/// What the runtime puts out reaches the browser unchanged: terminal bytes as bytes, and a
/// control message as that message. Neither ends the connection.
pub proof fn law_output_reaches_the_browser(
    client_id: Option<ClientId>,
    output: OutputView,
    frame: TunnelFrame,
)
    requires
        crate::tunnel::output_frame(client_id, output, frame),
        !(output is Closed),
    ensures
        frame_plan(frame).sends.len() == 1,
        output matches OutputView::Bytes(bytes) ==> frame_plan(frame).sends[0] == (
            SocketMessageView::Binary(bytes),
            true,
        ),
        output matches OutputView::Control(view) ==> frame_plan(frame).sends[0] == (
            SocketMessageView::Control(view),
            true,
        ),
        !frame_plan(frame).close,
{
}

/// A browser is sent what each frame of the runtime says, and at the end what the frames left
/// behind say; unless one of those has ended the connection, it ends because the session did.
pub proof fn law_frames_of_the_runtime_are_sent(
    before: (ClientId, nat),
    frame: TunnelFrame,
    frames: Vec<TunnelFrame>,
    now: nat,
    after: (ClientId, nat),
    step: RuntimeBrowserStep,
)
    ensures
        stepped(before, RuntimeBrowserEvent::Tunnel(Some(frame)), now, after, step)
            ==> step.plan@.sends == frame_plan(frame).sends && step.plan@.close == frame_plan(
            frame,
        ).close,
        stepped(before, RuntimeBrowserEvent::BridgeEnded(Some(frames)), now, after, step) ==> {
            let left = frames_plan(frames@);
            &&& step.plan@.close
            &&& left.close ==> step.plan@.sends == left.sends
            &&& !left.close ==> step.plan@.sends == left.sends.push(
                (
                    SocketMessageView::Close {
                        code: CloseCode::Normal,
                        reason: "session ended"@,
                    },
                    false,
                ),
            )
        },
{
    let left = frames_plan(frames@);
    let close = (
        SocketMessageView::Close { code: CloseCode::Normal, reason: "session ended"@ },
        false,
    );
    assert(left.sends + PlanView::nothing().sends.push(close) =~= left.sends.push(close));
}

/// The end of a session ends the connection in the normal way, and the browser is told why;
/// where the process exited it is told so first.
pub proof fn law_browser_is_told_why_a_session_closes(
    client_id: Option<ClientId>,
    reason: ReasonView,
    frame: TunnelFrame,
)
    requires
        crate::tunnel::output_frame(client_id, OutputView::Closed(reason), frame),
    ensures
        frame_plan(frame).close,
        frame_plan(frame).sends.len() == (if reason is ChildExit {
            2int
        } else {
            1
        }),
        reason is ChildExit ==> frame_plan(frame).sends[0].0 == SocketMessageView::Control(
            ServerMessageView::ProcessExited { message: "The terminal process exited."@ },
        ),
        frame_plan(frame).sends.last().0 == (SocketMessageView::Close {
            code: CloseCode::Normal,
            reason: match reason {
                ReasonView::Supervisor => "server shutting down"@,
                ReasonView::ClientDisconnect => "client disconnected"@,
                ReasonView::ControllerReplaced => "controller replaced"@,
                ReasonView::ChildExit => "session ended"@,
                ReasonView::RuntimeError(_) => "runtime error"@,
            },
        }),
{
}

/// Frames that only a browser's side sends break the protocol where they come back, and end
/// the connection; a sign of life is passed over.
pub proof fn law_foreign_frames_break_the_protocol(frame: TunnelFrame)
    ensures
        frame is RegisterSession || frame is AttachBrowser || frame is DetachBrowser
            || frame is BrowserAcquireControl || frame is BrowserInput || frame is BrowserResize
            ==> {
            let plan = frame_plan(frame);
            &&& plan.close
            &&& plan.sends.len() == 2
            &&& plan.sends[0].0 == SocketMessageView::Control(
                ServerMessageView::Error {
                    code: ErrorCode::Protocol,
                    message: "invalid control frame"@,
                },
            )
            &&& plan.sends[1].0 == (SocketMessageView::Close {
                code: CloseCode::Protocol,
                reason: "invalid control frame"@,
            })
        },
        frame is Heartbeat ==> frame_plan(frame).sends.len() == 0 && !frame_plan(frame).close,
{
}

/// Frames are sent in order, up to the first that ends the connection, and nothing behind it.
pub proof fn law_frames_are_sent_in_order(frames: Seq<TunnelFrame>, next: TunnelFrame)
    ensures
        frames_plan(seq![]).sends.len() == 0,
        !frames_plan(seq![]).close,
        frames_plan(frames).close ==> frames_plan(frames.push(next)) == frames_plan(frames),
        !frames_plan(frames).close ==> {
            &&& frames_plan(frames.push(next)).sends == frames_plan(frames).sends + frame_plan(
                next,
            ).sends
            &&& frames_plan(frames.push(next)).close == frame_plan(next).close
        },
{
    assert(frames.push(next).drop_last() =~= frames);
}

} // verus!
