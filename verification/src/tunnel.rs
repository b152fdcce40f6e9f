//! Runtime tunnel protocol.
//!
//! The tunnel layer sits between browser/web routing and the runtime session
//! actor. Its frames do not depend on a concrete transport.

use bytes::Bytes;
use vstd::prelude::*;

use crate::protocol::{
    HeartbeatSequence, SafeMessage, ServerControlMessage, SessionName,
    TerminalSize,
};
use crate::runtime::{
    ClientId, ClientOutput, ClientOutputTx, OutputView, ReasonView, RuntimeCommand, ShutdownReason,
};

verus! {

/// Largest terminal payload of a frame, in bytes.
pub const TUNNEL_TERMINAL_PAYLOAD_MAX_BYTES: usize = 64 * 1024;

/// `serde_json::Error`, why a JSON text could not be written or read.
#[verifier::external_type_specification]
#[verifier::external_body]
pub struct ExJsonError(serde_json::Error);

/// Tunnel protocol failure.
#[derive(Debug)]
pub enum TunnelError {
    /// A terminal payload exceeded the configured frame cap.
    TerminalPayloadTooLarge,
    /// JSON tunnel frame encoding or decoding failed.
    Json(serde_json::Error),
    /// The payload kind is not supported by this codec.
    UnsupportedPayload,
    /// The tunnel transport closed.
    TransportClosed,
    /// Sending a runtime command failed because the runtime stopped.
    RuntimeCommandChannelClosed,
}

impl TunnelError {
    /// The text that describes the failure.
    pub open spec fn text(self) -> Seq<char> {
        match self {
            TunnelError::TerminalPayloadTooLarge => "tunnel terminal payload exceeds 65536 bytes"@,
            TunnelError::Json(_) => "failed to encode or decode tunnel JSON frame"@,
            TunnelError::UnsupportedPayload => "unsupported tunnel payload for codec"@,
            TunnelError::TransportClosed => "tunnel transport closed"@,
            TunnelError::RuntimeCommandChannelClosed => "runtime command channel closed"@,
        }
    }

    /// Describes the failure.
    pub fn message(&self) -> (r: &'static str)
        ensures
            r@ == self.text(),
    {
        match self {
            TunnelError::TerminalPayloadTooLarge => "tunnel terminal payload exceeds 65536 bytes",
            TunnelError::Json(_) => "failed to encode or decode tunnel JSON frame",
            TunnelError::UnsupportedPayload => "unsupported tunnel payload for codec",
            TunnelError::TransportClosed => "tunnel transport closed",
            TunnelError::RuntimeCommandChannelClosed => "runtime command channel closed",
        }
    }
}

/// Bounded terminal bytes carried by tunnel frames.
///
/// What a terminal shows is not for logs: [`Self::debug_text`] tells only how much it is.
#[derive(PartialEq, Eq)]
pub struct TunnelTerminalPayload(Bytes);

impl Clone for TunnelTerminalPayload {
    fn clone(&self) -> (r: Self)
        ensures
            r@ == self@,
    {
        proof {
            use_type_invariant(self);
        }
        TunnelTerminalPayload(self.0.clone())
    }
}

impl View for TunnelTerminalPayload {
    type V = Seq<u8>;

    closed spec fn view(&self) -> Seq<u8> {
        crate::octets::octets(self.0)
    }
}

impl TunnelTerminalPayload {
    /// A payload is within the frame cap.
    #[verifier::type_invariant]
    pub open spec fn valid(&self) -> bool {
        self@.len() <= TUNNEL_TERMINAL_PAYLOAD_MAX_BYTES
    }

    /// Creates a bounded terminal payload of at most 64 KiB.
    pub fn new(bytes: Bytes) -> (r: Result<Self, TunnelError>)
        ensures
            match r {
                Ok(payload) => {
                    &&& crate::octets::octets(bytes).len() <= TUNNEL_TERMINAL_PAYLOAD_MAX_BYTES
                    &&& payload@ == crate::octets::octets(bytes)
                },
                Err(error) => {
                    &&& crate::octets::octets(bytes).len() > TUNNEL_TERMINAL_PAYLOAD_MAX_BYTES
                    &&& error is TerminalPayloadTooLarge
                },
            },
    {
        if crate::octets::bytes_len(&bytes) <= TUNNEL_TERMINAL_PAYLOAD_MAX_BYTES {
            Ok(TunnelTerminalPayload(bytes))
        } else {
            Err(TunnelError::TerminalPayloadTooLarge)
        }
    }

    /// Describes the payload by its length.
    #[must_use]
    pub fn debug_text(&self) -> (r: String)
        ensures
            r@ == "TunnelTerminalPayload { len: "@ + crate::text::decimal_text(self@.len()) + " }"@,
    {
        let mut text = "TunnelTerminalPayload { len: ".to_owned();
        text.append(crate::text::decimal(self.len() as u64).as_str());
        text.append(" }");
        text
    }

    /// Returns the payload length in bytes.
    #[must_use]
    pub fn len(&self) -> (r: usize)
        ensures
            r == self@.len(),
            r <= TUNNEL_TERMINAL_PAYLOAD_MAX_BYTES,
    {
        proof {
            use_type_invariant(self);
        }
        crate::octets::bytes_len(&self.0)
    }

    /// Returns whether the payload is empty.
    #[must_use]
    pub fn is_empty(&self) -> (r: bool)
        ensures
            r == (self@.len() == 0),
    {
        crate::octets::bytes_len(&self.0) == 0
    }

    /// Returns the payload bytes.
    #[must_use]
    pub fn as_bytes(&self) -> (r: &[u8])
        ensures
            r@ == self@,
    {
        crate::octets::bytes_as_slice(&self.0)
    }

    /// Consumes the payload and returns the underlying bytes.
    #[must_use]
    pub fn into_bytes(self) -> (r: Bytes)
        ensures
            crate::octets::octets(r) == self@,
    {
        self.0
    }
}

/// Transport-level payload passed to codecs.
#[derive(Debug, Clone, PartialEq, Eq)]
pub enum TunnelPayload {
    /// Text transport payload, usually JSON control data.
    Text(String),
    /// Binary transport payload, usually raw terminal bytes with an envelope.
    Binary(Bytes),
}

impl TunnelPayload {
    /// The text that a JSON codec decodes. Binary payloads are not supported.
    pub fn json_text(self) -> (r: Result<String, TunnelError>)
        ensures
            match self {
                TunnelPayload::Text(text) => r matches Ok(json) && json@ == text@,
                TunnelPayload::Binary(_) => r matches Err(error) && error is UnsupportedPayload,
            },
    {
        match self {
            TunnelPayload::Text(text) => Ok(text),
            TunnelPayload::Binary(_) => Err(TunnelError::UnsupportedPayload),
        }
    }
}

/// Stable close reason carried through the runtime tunnel.
#[derive(Debug, Clone, PartialEq, Eq)]
pub enum TunnelCloseReason {
    /// Server supervisor requested shutdown.
    Supervisor,
    /// The browser/client disconnected.
    ClientDisconnect,
    /// A newer browser/client took over the controller role.
    ControllerReplaced,
    /// The child process exited or the PTY reached EOF.
    ChildExit,
    /// Runtime error.
    RuntimeError(SafeMessage),
}

impl View for TunnelCloseReason {
    type V = ReasonView;

    open spec fn view(&self) -> ReasonView {
        match *self {
            TunnelCloseReason::Supervisor => ReasonView::Supervisor,
            TunnelCloseReason::ClientDisconnect => ReasonView::ClientDisconnect,
            TunnelCloseReason::ControllerReplaced => ReasonView::ControllerReplaced,
            TunnelCloseReason::ChildExit => ReasonView::ChildExit,
            TunnelCloseReason::RuntimeError(message) => ReasonView::RuntimeError(message@),
        }
    }
}

/// The close reason that a tunnel carries for `reason`. The text of a runtime
/// error is replaced where it does not fit a safe message.
pub open spec fn tunnel_reason(reason: ReasonView) -> ReasonView {
    match reason {
        ReasonView::RuntimeError(message) => if crate::text::byte_len(message)
            <= crate::protocol::SAFE_MESSAGE_MAX_BYTES {
            reason
        } else {
            ReasonView::RuntimeError("runtime error"@)
        },
        _ => reason,
    }
}

impl TunnelCloseReason {
    /// The close reason that a tunnel carries for a shutdown reason.
    pub fn from_shutdown_reason(reason: ShutdownReason) -> (r: Self)
        ensures
            r@ == tunnel_reason(reason@),
    {
        match reason {
            ShutdownReason::Supervisor => TunnelCloseReason::Supervisor,
            ShutdownReason::ClientDisconnect => TunnelCloseReason::ClientDisconnect,
            ShutdownReason::ControllerReplaced => TunnelCloseReason::ControllerReplaced,
            ShutdownReason::ChildExit => TunnelCloseReason::ChildExit,
            ShutdownReason::RuntimeError(message) => {
                let message = match SafeMessage::new(message.as_str()) {
                    Ok(message) => message,
                    Err(_) => SafeMessage::from_static("runtime error"),
                };
                TunnelCloseReason::RuntimeError(message)
            },
        }
    }
}

/// A close reason that a tunnel carries fits a safe message, and is carried on
/// unchanged.
pub proof fn law_tunnel_reason_is_safe(reason: ReasonView)
    ensures
        tunnel_reason(reason) matches ReasonView::RuntimeError(message) ==> crate::text::byte_len(
            message,
        ) <= crate::protocol::SAFE_MESSAGE_MAX_BYTES,
        tunnel_reason(tunnel_reason(reason)) == tunnel_reason(reason),
{
    reveal_strlit("runtime error");
    vstd::utf8::is_ascii_chars_encode_utf8("runtime error"@);
}

/// Runtime-side control frame.
#[derive(Debug, Clone, PartialEq, Eq)]
pub enum TunnelRuntimeControl {
    /// Server-to-browser runtime control message.
    Server {
        /// Runtime control message.
        message: ServerControlMessage,
    },
    /// Runtime closed the client stream.
    Closed {
        /// Stable close reason.
        reason: TunnelCloseReason,
    },
}

/// Stable semantic frame exchanged between web side and runtime side.
#[derive(Clone, PartialEq, Eq)]
#[allow(inconsistent_fields)]
pub enum TunnelFrame {
    /// Runtime side announces a session.
    RegisterSession {
        /// Runtime session id.
        session: SessionName,
        /// Command or shell display text.
        command_display: SafeMessage,
        /// Initial runtime terminal size.
        size: TerminalSize,
    },
    /// Web side attaches a browser client to the runtime side.
    AttachBrowser {
        /// Browser client id.
        client_id: ClientId,
    },
    /// Web side detaches a browser client from the runtime side.
    DetachBrowser {
        /// Browser client id.
        client_id: ClientId,
    },
    /// Web side asks for terminal control on behalf of a browser client.
    BrowserAcquireControl {
        /// Browser client id.
        client_id: ClientId,
    },
    /// Web side forwards browser terminal input bytes to the runtime side.
    BrowserInput {
        /// Browser client id.
        client_id: ClientId,
        /// Terminal bytes.
        bytes: TunnelTerminalPayload,
    },
    /// Web side forwards browser terminal dimensions to the runtime side.
    BrowserResize {
        /// Browser client id.
        client_id: ClientId,
        /// Proposed terminal size.
        size: TerminalSize,
    },
    /// Runtime side forwards PTY output bytes to the web side.
    PtyOutput {
        /// Terminal bytes.
        bytes: TunnelTerminalPayload,
    },
    /// Runtime side forwards runtime control to the web side.
    RuntimeControl {
        /// Browser client id when the control is scoped to one client.
        client_id: Option<ClientId>,
        /// Runtime control message.
        control: TunnelRuntimeControl,
    },
    /// Liveness heartbeat.
    Heartbeat {
        /// Heartbeat sequence.
        sequence: HeartbeatSequence,
    },
}

/// Runtime-side action produced from a tunnel frame.
#[derive(Debug)]
pub enum RuntimeTunnelAction {
    /// Attach a browser. The caller must create the runtime output mailbox.
    AttachBrowser {
        /// Browser client id.
        client_id: ClientId,
    },
    /// Send a runtime command directly.
    Command(RuntimeCommand),
    /// No runtime command is needed.
    Nothing,
}

/// Runtime tunnel bridge completion reason.
#[derive(Debug, Clone, Copy, PartialEq, Eq, Structural)]
pub enum RuntimeTunnelBridgeOutcome {
    /// The transport closed cleanly.
    TransportClosed,
    /// The runtime output stream closed.
    RuntimeStopped,
}

/// What the runtime side does about a frame.
pub open spec fn frame_action(frame: TunnelFrame, action: RuntimeTunnelAction) -> bool {
    match frame {
        TunnelFrame::AttachBrowser { client_id } => action
            == RuntimeTunnelAction::AttachBrowser { client_id },
        TunnelFrame::DetachBrowser { client_id } => action == RuntimeTunnelAction::Command(
            RuntimeCommand::DetachClient { client_id },
        ),
        TunnelFrame::BrowserAcquireControl { client_id } => action == RuntimeTunnelAction::Command(
            RuntimeCommand::AcquireControl { client_id },
        ),
        TunnelFrame::BrowserInput { client_id, bytes } => {
            action matches RuntimeTunnelAction::Command(
                RuntimeCommand::Input { client_id: id, bytes: input },
            ) && id == client_id && crate::octets::octets(input) == bytes@
        },
        TunnelFrame::BrowserResize { client_id, size } => action == RuntimeTunnelAction::Command(
            RuntimeCommand::BrowserResize { client_id, size },
        ),
        _ => action == RuntimeTunnelAction::Nothing,
    }
}

/// The frame that carries `output` to the web side.
pub open spec fn output_frame(
    client_id: Option<ClientId>,
    output: OutputView,
    frame: TunnelFrame,
) -> bool {
    match output {
        OutputView::Bytes(bytes) => frame matches TunnelFrame::PtyOutput { bytes: payload }
            && payload@ == bytes,
        OutputView::Control(view) => frame matches TunnelFrame::RuntimeControl {
            client_id: id,
            control: TunnelRuntimeControl::Server { message },
        } && id == client_id && message@ == view,
        OutputView::Closed(view) => frame matches TunnelFrame::RuntimeControl {
            client_id: id,
            control: TunnelRuntimeControl::Closed { reason },
        } && id == client_id && reason@ == tunnel_reason(view),
    }
}

/// Tells whether `output` is more than one frame can carry.
pub open spec fn too_large(output: OutputView) -> bool {
    output matches OutputView::Bytes(bytes) && bytes.len() > TUNNEL_TERMINAL_PAYLOAD_MAX_BYTES
}

/// What the runtime side of a tunnel does next.
#[allow(inconsistent_fields)]
pub enum BridgeStep {
    /// Wait for the next frame or output.
    Continue,
    /// Create an output mailbox and attach the client to the runtime with it.
    Attach {
        /// Browser client id.
        client_id: ClientId,
    },
    /// Send a command to the runtime.
    SendCommand(RuntimeCommand),
    /// Send a frame to the web side.
    SendFrame(TunnelFrame),
    /// Send a command to the runtime and stop.
    SendCommandAndStop(RuntimeCommand, RuntimeTunnelBridgeOutcome),
    /// Send a frame to the web side and stop.
    SendFrameAndStop(TunnelFrame, RuntimeTunnelBridgeOutcome),
    /// Stop.
    Stop(RuntimeTunnelBridgeOutcome),
}

/// Tells whether a bridge with the client `before` that takes `frame` does `step` and then
/// has the client `after`.
pub open spec fn transport_step(
    before: Option<ClientId>,
    frame: Option<TunnelFrame>,
    after: Option<ClientId>,
    step: BridgeStep,
) -> bool {
    match frame {
        None => {
            &&& after is None
            &&& step == (match before {
                Some(client_id) => BridgeStep::SendCommandAndStop(
                    RuntimeCommand::DetachClient { client_id },
                    RuntimeTunnelBridgeOutcome::TransportClosed,
                ),
                None => BridgeStep::Stop(RuntimeTunnelBridgeOutcome::TransportClosed),
            })
        },
        Some(frame) => exists|action: RuntimeTunnelAction|
            {
                &&& #[trigger] frame_action(frame, action)
                &&& match action {
                    RuntimeTunnelAction::AttachBrowser { client_id } => {
                        &&& step == BridgeStep::Attach { client_id }
                        &&& after == Some(client_id)
                    },
                    RuntimeTunnelAction::Command(command) => {
                        &&& step == BridgeStep::SendCommand(command)
                        &&& after == (if command matches RuntimeCommand::DetachClient { client_id }
                            && before == Some(client_id) {
                            None
                        } else {
                            before
                        })
                    },
                    RuntimeTunnelAction::Nothing => {
                        &&& step == BridgeStep::Continue
                        &&& after == before
                    },
                }
            },
    }
}

/// Tells whether a bridge with the client `attached` that takes `output` does `r`.
pub open spec fn output_step(
    attached: Option<ClientId>,
    output: Option<OutputView>,
    r: Result<BridgeStep, TunnelError>,
) -> bool {
    match output {
        None => r == Ok::<BridgeStep, TunnelError>(
            BridgeStep::Stop(RuntimeTunnelBridgeOutcome::RuntimeStopped),
        ),
        Some(output) => if too_large(output) {
            r matches Err(error) && error is TerminalPayloadTooLarge
        } else if output is Closed {
            r matches Ok(BridgeStep::SendFrameAndStop(frame, outcome)) && output_frame(
                attached,
                output,
                frame,
            ) && outcome == RuntimeTunnelBridgeOutcome::RuntimeStopped
        } else {
            r matches Ok(BridgeStep::SendFrame(frame)) && output_frame(attached, output, frame)
        },
    }
}

/// Bridge between tunnel frames and runtime commands/output.
#[derive(Debug, Clone, Copy)]
pub struct RuntimeTunnelBridge {
    attached: Option<ClientId>,
}

impl View for RuntimeTunnelBridge {
    type V = Option<ClientId>;

    closed spec fn view(&self) -> Option<ClientId> {
        self.attached
    }
}

impl RuntimeTunnelBridge {
    /// Creates a bridge with no attached client.
    #[must_use]
    pub fn new() -> (r: Self)
        ensures
            r@ is None,
    {
        RuntimeTunnelBridge { attached: None }
    }

    /// Returns the attached client.
    #[must_use]
    pub fn attached(&self) -> (r: Option<ClientId>)
        ensures
            r == self@,
    {
        self.attached
    }

    /// Takes a frame from the transport, or its end. The end detaches the
    /// attached client.
    pub fn handle_transport_frame(&mut self, frame: Option<TunnelFrame>) -> (r: BridgeStep)
        ensures
            transport_step(old(self)@, frame, final(self)@, r),
    {
        let frame = match frame {
            Some(frame) => frame,
            None => {
                let attached = self.attached;
                self.attached = None;
                return match attached {
                    Some(client_id) => BridgeStep::SendCommandAndStop(
                        RuntimeCommand::DetachClient { client_id },
                        RuntimeTunnelBridgeOutcome::TransportClosed,
                    ),
                    None => BridgeStep::Stop(RuntimeTunnelBridgeOutcome::TransportClosed),
                };
            },
        };
        match RuntimeTunnelBridge::action_from_frame(frame) {
            RuntimeTunnelAction::AttachBrowser { client_id } => {
                self.attached = Some(client_id);
                BridgeStep::Attach { client_id }
            },
            RuntimeTunnelAction::Command(command) => {
                if let RuntimeCommand::DetachClient { client_id } = &command {
                    if let Some(attached) = self.attached {
                        if attached == *client_id {
                            self.attached = None;
                        }
                    }
                }
                BridgeStep::SendCommand(command)
            },
            RuntimeTunnelAction::Nothing => BridgeStep::Continue,
        }
    }

    /// Takes output of the runtime for the attached client, or its end. The
    /// bridge stops with the output.
    pub fn handle_runtime_output(&mut self, output: Option<ClientOutput>) -> (r: Result<
        BridgeStep,
        TunnelError,
    >)
        ensures
            final(self)@ == old(self)@,
            output_step(
                old(self)@,
                match output {
                    Some(output) => Some(output@),
                    None => None,
                },
                r,
            ),
    {
        let output = match output {
            Some(output) => output,
            None => return Ok(BridgeStep::Stop(RuntimeTunnelBridgeOutcome::RuntimeStopped)),
        };
        let is_closed = matches!(output, ClientOutput::Closed(_));
        match RuntimeTunnelBridge::frame_from_output(self.attached, output) {
            Ok(frame) => {
                if is_closed {
                    Ok(
                        BridgeStep::SendFrameAndStop(
                            frame,
                            RuntimeTunnelBridgeOutcome::RuntimeStopped,
                        ),
                    )
                } else {
                    Ok(BridgeStep::SendFrame(frame))
                }
            },
            Err(error) => Err(error),
        }
    }

    /// Converts a tunnel frame into a runtime-side action.
    #[must_use]
    pub fn action_from_frame(frame: TunnelFrame) -> (r: RuntimeTunnelAction)
        ensures
            frame_action(frame, r),
    {
        match frame {
            TunnelFrame::AttachBrowser { client_id } => RuntimeTunnelAction::AttachBrowser {
                client_id,
            },
            TunnelFrame::DetachBrowser { client_id } => RuntimeTunnelAction::Command(
                RuntimeCommand::DetachClient { client_id },
            ),
            TunnelFrame::BrowserAcquireControl { client_id } => RuntimeTunnelAction::Command(
                RuntimeCommand::AcquireControl { client_id },
            ),
            TunnelFrame::BrowserInput { client_id, bytes } => RuntimeTunnelAction::Command(
                RuntimeCommand::Input { client_id, bytes: bytes.into_bytes() },
            ),
            TunnelFrame::BrowserResize { client_id, size } => RuntimeTunnelAction::Command(
                RuntimeCommand::BrowserResize { client_id, size },
            ),
            TunnelFrame::RegisterSession { .. }
            | TunnelFrame::PtyOutput { .. }
            | TunnelFrame::RuntimeControl { .. }
            | TunnelFrame::Heartbeat { .. } => RuntimeTunnelAction::Nothing,
        }
    }

    /// Creates an attach command once the bridge has allocated an output
    /// mailbox.
    #[must_use]
    pub fn attach_command(client_id: ClientId, output: ClientOutputTx) -> (r: RuntimeCommand)
        ensures
            r == (RuntimeCommand::AttachClient { client_id, output }),
    {
        RuntimeCommand::AttachClient { client_id, output }
    }

    /// Converts runtime output into a tunnel frame, where one frame can carry it.
    pub fn frame_from_output(client_id: Option<ClientId>, output: ClientOutput) -> (r: Result<
        TunnelFrame,
        TunnelError,
    >)
        ensures
            match r {
                Ok(frame) => !too_large(output@) && output_frame(client_id, output@, frame),
                Err(error) => too_large(output@) && error is TerminalPayloadTooLarge,
            },
    {
        match output {
            ClientOutput::Bytes(bytes) => match TunnelTerminalPayload::new(bytes) {
                Ok(bytes) => Ok(TunnelFrame::PtyOutput { bytes }),
                Err(error) => Err(error),
            },
            ClientOutput::Control(message) => Ok(
                TunnelFrame::RuntimeControl {
                    client_id,
                    control: TunnelRuntimeControl::Server { message },
                },
            ),
            ClientOutput::Closed(reason) => Ok(
                TunnelFrame::RuntimeControl {
                    client_id,
                    control: TunnelRuntimeControl::Closed {
                        reason: TunnelCloseReason::from_shutdown_reason(reason),
                    },
                },
            ),
        }
    }
}

impl Default for RuntimeTunnelBridge {
    fn default() -> (r: Self)
        ensures
            r@ is None,
    {
        RuntimeTunnelBridge::new()
    }
}

/// A close reason is carried as it is, unless it tells more of a runtime error than 512 bytes
/// hold.
pub proof fn law_close_reasons_are_carried(reason: ReasonView)
    ensures
        !(reason is RuntimeError) ==> tunnel_reason(reason) == reason,
        reason matches ReasonView::RuntimeError(message) ==> {
            &&& tunnel_reason(reason) is RuntimeError
            &&& vstd::utf8::encode_utf8(message).len() <= 512 ==> tunnel_reason(reason) == reason
            &&& vstd::utf8::encode_utf8(message).len() > 512 ==> tunnel_reason(reason)
                == ReasonView::RuntimeError("runtime error"@)
        },
{
}

/// The bridge remembers which client it attached, and detaches that client, and no other,
/// when the transport ends.
pub proof fn law_end_of_transport_detaches_the_client(
    before: Option<ClientId>,
    frame: TunnelFrame,
    after: Option<ClientId>,
    step: BridgeStep,
    last: Option<ClientId>,
    end: BridgeStep,
)
    requires
        transport_step(before, Some(frame), after, step),
        transport_step(after, None, last, end),
    ensures
        match frame {
            TunnelFrame::AttachBrowser { client_id } => {
                &&& step == BridgeStep::Attach { client_id }
                &&& after == Some(client_id)
                &&& end == BridgeStep::SendCommandAndStop(
                    RuntimeCommand::DetachClient { client_id },
                    RuntimeTunnelBridgeOutcome::TransportClosed,
                )
            },
            TunnelFrame::DetachBrowser { client_id } => {
                &&& step == BridgeStep::SendCommand(RuntimeCommand::DetachClient { client_id })
                &&& before == Some(client_id) ==> end == BridgeStep::Stop(
                    RuntimeTunnelBridgeOutcome::TransportClosed,
                )
                &&& before != Some(client_id) ==> after == before
            },
            _ => after == before,
        },
        last is None,
{
}

/// What a browser asks for reaches the runtime in the name of that browser, with what it
/// typed or the size it asked for; nothing else does.
pub proof fn law_browser_frames_become_commands(
    before: Option<ClientId>,
    frame: TunnelFrame,
    after: Option<ClientId>,
    step: BridgeStep,
)
    requires
        transport_step(before, Some(frame), after, step),
    ensures
        match step {
            BridgeStep::SendCommand(command) => match command {
                RuntimeCommand::Input { client_id, bytes } => {
                    &&& frame matches TunnelFrame::BrowserInput { client_id: id, bytes: payload }
                    &&& id == client_id
                    &&& payload@ == crate::octets::octets(bytes)
                },
                RuntimeCommand::AcquireControl { client_id } => {
                    &&& frame matches TunnelFrame::BrowserAcquireControl { client_id: id }
                    &&& id == client_id
                },
                RuntimeCommand::BrowserResize { client_id, size } => {
                    &&& frame matches TunnelFrame::BrowserResize { client_id: id, size: asked }
                    &&& id == client_id
                    &&& asked == size
                },
                RuntimeCommand::DetachClient { client_id } => {
                    &&& frame matches TunnelFrame::DetachBrowser { client_id: id }
                    &&& id == client_id
                },
                _ => false,
            },
            BridgeStep::Attach { client_id } => {
                &&& frame matches TunnelFrame::AttachBrowser { client_id: id }
                &&& id == client_id
            },
            BridgeStep::Continue => {
                ||| frame is RegisterSession
                ||| frame is PtyOutput
                ||| frame is RuntimeControl
                ||| frame is Heartbeat
            },
            _ => false,
        },
{
}

/// Output goes to the web side as it is, in a frame for the attached client; what exceeds
/// 64 KiB is refused. The bridge stops with the runtime.
pub proof fn law_output_is_framed(
    attached: Option<ClientId>,
    output: Option<OutputView>,
    r: Result<BridgeStep, TunnelError>,
)
    requires
        output_step(attached, output, r),
    ensures
        output is None ==> {
            &&& r matches Ok(BridgeStep::Stop(outcome))
            &&& outcome == RuntimeTunnelBridgeOutcome::RuntimeStopped
        },
        output matches Some(OutputView::Bytes(bytes)) ==> match r {
            Ok(step) => {
                &&& bytes.len() <= 65536
                &&& step matches BridgeStep::SendFrame(TunnelFrame::PtyOutput { bytes: payload })
                &&& payload@ == bytes
            },
            Err(error) => bytes.len() > 65536 && error is TerminalPayloadTooLarge,
        },
        output matches Some(OutputView::Control(view)) ==> {
            &&& r matches Ok(
                BridgeStep::SendFrame(
                    TunnelFrame::RuntimeControl {
                        client_id,
                        control: TunnelRuntimeControl::Server { message },
                    },
                ),
            )
            &&& client_id == attached
            &&& message@ == view
        },
        output matches Some(OutputView::Closed(view)) ==> {
            &&& r matches Ok(
                BridgeStep::SendFrameAndStop(
                    TunnelFrame::RuntimeControl {
                        client_id,
                        control: TunnelRuntimeControl::Closed { reason },
                    },
                    outcome,
                ),
            )
            &&& client_id == attached
            &&& outcome == RuntimeTunnelBridgeOutcome::RuntimeStopped
            &&& reason@ is RuntimeError == view is RuntimeError
            &&& !(view is RuntimeError) ==> reason@ == view
        },
{
}

/// Each failure of a tunnel is told in its own words.
pub proof fn law_tunnel_failures_have_their_words(error: TunnelError)
    ensures
        error is TerminalPayloadTooLarge ==> error.text()
            == "tunnel terminal payload exceeds 65536 bytes"@,
        error is Json ==> error.text() == "failed to encode or decode tunnel JSON frame"@,
        error is UnsupportedPayload ==> error.text() == "unsupported tunnel payload for codec"@,
        error is TransportClosed ==> error.text() == "tunnel transport closed"@,
        error is RuntimeCommandChannelClosed ==> error.text() == "runtime command channel closed"@,
{
}

} // verus!
