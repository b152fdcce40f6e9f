use bytes::Bytes;
use termstage::protocol::{
    HeartbeatSequence, LeaseOwner, SafeMessage, ServerControlMessage, TerminalSize,
};
use termstage::runtime::{ClientId, ClientOutput, RuntimeCommand, ShutdownReason};
use termstage::tunnel::{
    BridgeStep, RuntimeTunnelAction, RuntimeTunnelBridge, RuntimeTunnelBridgeOutcome,
    TunnelCloseReason, TunnelError, TunnelFrame, TunnelPayload, TunnelRuntimeControl,
    TunnelTerminalPayload, TUNNEL_TERMINAL_PAYLOAD_MAX_BYTES,
};

#[test]
fn test_should_reject_oversized_terminal_payload() {
    let bytes = Bytes::from(vec![b'x'; TUNNEL_TERMINAL_PAYLOAD_MAX_BYTES + 1]);

    assert!(matches!(
        TunnelTerminalPayload::new(bytes),
        Err(TunnelError::TerminalPayloadTooLarge)
    ));
    let most = Bytes::from(vec![b'x'; TUNNEL_TERMINAL_PAYLOAD_MAX_BYTES]);
    assert_eq!(TunnelTerminalPayload::new(most).unwrap().len(), TUNNEL_TERMINAL_PAYLOAD_MAX_BYTES);
}

#[test]
fn test_should_map_browser_input_to_runtime_command() {
    let client_id = ClientId::new(3);
    let frame = TunnelFrame::BrowserInput {
        client_id,
        bytes: TunnelTerminalPayload::new(Bytes::from_static(b"pwd\n")).unwrap(),
    };

    let RuntimeTunnelAction::Command(RuntimeCommand::Input { client_id: id, bytes }) =
        RuntimeTunnelBridge::action_from_frame(frame)
    else {
        panic!("expected runtime input command");
    };

    assert_eq!(id, client_id);
    assert_eq!(bytes, Bytes::from_static(b"pwd\n"));
}

#[test]
fn test_should_map_runtime_control_to_tunnel_frame() {
    let frame = RuntimeTunnelBridge::frame_from_output(
        Some(ClientId::new(9)),
        ClientOutput::Control(ServerControlMessage::LeaseChanged {
            owner: LeaseOwner::Browser,
            epoch: 4,
        }),
    )
    .unwrap();

    assert!(
        frame == TunnelFrame::RuntimeControl {
            client_id: Some(ClientId::new(9)),
            control: TunnelRuntimeControl::Server {
                message: ServerControlMessage::LeaseChanged {
                    owner: LeaseOwner::Browser,
                    epoch: 4,
                },
            },
        }
    );
}

#[test]
fn test_should_map_runtime_close_to_safe_tunnel_reason() {
    let frame = RuntimeTunnelBridge::frame_from_output(
        None,
        ClientOutput::Closed(ShutdownReason::RuntimeError("x".repeat(600))),
    )
    .unwrap();

    assert!(
        frame == TunnelFrame::RuntimeControl {
            client_id: None,
            control: TunnelRuntimeControl::Closed {
                reason: TunnelCloseReason::RuntimeError(SafeMessage::from_static("runtime error")),
            },
        }
    );
}

#[test]
fn test_should_run_bridge_attach_input_output_and_detach() {
    let client_id = ClientId::new(11);
    let mut bridge = RuntimeTunnelBridge::new();

    let BridgeStep::Attach { client_id: attached_id } =
        bridge.handle_transport_frame(Some(TunnelFrame::AttachBrowser { client_id }))
    else {
        panic!("expected attach command");
    };
    assert_eq!(attached_id, client_id);

    let BridgeStep::SendFrame(TunnelFrame::PtyOutput { bytes }) = bridge
        .handle_runtime_output(Some(ClientOutput::Bytes(Bytes::from_static(b"runtime-output"))))
        .unwrap()
    else {
        panic!("expected pty output frame");
    };
    assert_eq!(bytes.as_bytes(), b"runtime-output");

    let BridgeStep::SendCommand(RuntimeCommand::Input { client_id: input_id, bytes }) = bridge
        .handle_transport_frame(Some(TunnelFrame::BrowserInput {
            client_id,
            bytes: TunnelTerminalPayload::new(Bytes::from_static(b"browser-input")).unwrap(),
        }))
    else {
        panic!("expected input command");
    };
    assert_eq!(input_id, client_id);
    assert_eq!(bytes, Bytes::from_static(b"browser-input"));

    let BridgeStep::SendCommandAndStop(
        RuntimeCommand::DetachClient { client_id: detached_id },
        outcome,
    ) = bridge.handle_transport_frame(None)
    else {
        panic!("expected detach command");
    };
    assert_eq!(outcome, RuntimeTunnelBridgeOutcome::TransportClosed);
    assert_eq!(detached_id, client_id);
}

#[test]
fn test_should_stop_bridge_after_runtime_closed_output() {
    let client_id = ClientId::new(12);
    let mut bridge = RuntimeTunnelBridge::new();
    bridge.handle_transport_frame(Some(TunnelFrame::AttachBrowser { client_id }));

    let BridgeStep::SendFrameAndStop(TunnelFrame::RuntimeControl { control, .. }, outcome) =
        bridge
            .handle_runtime_output(Some(ClientOutput::Closed(ShutdownReason::ChildExit)))
            .unwrap()
    else {
        panic!("expected runtime control frame");
    };
    assert_eq!(
        control,
        TunnelRuntimeControl::Closed { reason: TunnelCloseReason::ChildExit }
    );
    assert_eq!(outcome, RuntimeTunnelBridgeOutcome::RuntimeStopped);
}

#[test]
fn test_should_map_other_frames() {
    let client_id = ClientId::new(4);
    let size = TerminalSize::new(120, 40).unwrap();
    assert!(matches!(
        RuntimeTunnelBridge::action_from_frame(TunnelFrame::BrowserResize { client_id, size }),
        RuntimeTunnelAction::Command(RuntimeCommand::BrowserResize { client_id: id, size: s })
            if id == client_id && s == size
    ));
    assert!(matches!(
        RuntimeTunnelBridge::action_from_frame(TunnelFrame::BrowserAcquireControl { client_id }),
        RuntimeTunnelAction::Command(RuntimeCommand::AcquireControl { client_id: id })
            if id == client_id
    ));
    assert!(matches!(
        RuntimeTunnelBridge::action_from_frame(TunnelFrame::Heartbeat {
            sequence: HeartbeatSequence::new(1)
        }),
        RuntimeTunnelAction::Nothing
    ));
}

#[test]
fn test_should_refuse_binary_json() {
    assert_eq!(TunnelPayload::Text("{}".to_owned()).json_text().unwrap(), "{}");
    assert!(matches!(
        TunnelPayload::Binary(Bytes::from_static(b"{}")).json_text(),
        Err(TunnelError::UnsupportedPayload)
    ));
}

#[test]
fn test_should_fail_on_output_that_no_frame_carries() {
    let bytes = Bytes::from(vec![0; TUNNEL_TERMINAL_PAYLOAD_MAX_BYTES + 1]);
    assert!(matches!(
        RuntimeTunnelBridge::frame_from_output(None, ClientOutput::Bytes(bytes)),
        Err(TunnelError::TerminalPayloadTooLarge)
    ));
}

#[test]
fn test_should_describe_a_payload_by_its_length() {
    let payload = TunnelTerminalPayload::new(Bytes::from_static(b"secret")).unwrap();
    assert_eq!(payload.debug_text(), "TunnelTerminalPayload { len: 6 }");
}
