use std::collections::VecDeque;

use bytes::Bytes;
use termstage::local_terminal::{step as terminal_step, TerminalStep};
use termstage::protocol::{LeaseOwner, SafeMessage, ServerControlMessage, TerminalSize};
use termstage::runtime::{
    read_event, record_replay_chunk, ActorInput, ActorRequest, ChildStatus, ClientId, ClientOutput,
    ExitPolicy, PtyEvent, PtyEventKind, ReconnectPolicy, RuntimeCommand, RuntimeConfig,
    RuntimeError, SessionActor, SessionMode, ShellCommand, ShutdownReason,
    CLIENT_OUTPUT_CAPACITY, REPLAY_BUFFER_CHUNKS,
};
use termstage::tmux_commands::{removed_environment, terminal_environment};
use tokio::sync::mpsc::{channel, Receiver};

fn size(cols: u16, rows: u16) -> TerminalSize {
    TerminalSize::new(cols, rows).unwrap()
}

fn config(exit_policy: ExitPolicy) -> RuntimeConfig {
    RuntimeConfig {
        mode: SessionMode::NewShell {
            shell: ShellCommand::new(b"/bin/bash".to_vec(), vec![b"--norc".to_vec()]).unwrap(),
        },
        initial_size: size(80, 24),
        reconnect_policy: ReconnectPolicy::KeepAlive,
        exit_policy,
    }
}

/// A session whose terminal process writes back what is written to it.
struct EchoSession {
    actor: SessionActor,
    written: Vec<Bytes>,
    resized: Vec<TerminalSize>,
}

impl EchoSession {
    fn start(exit_policy: ExitPolicy) -> Self {
        EchoSession {
            actor: SessionActor::new(config(exit_policy)),
            written: Vec::new(),
            resized: Vec::new(),
        }
    }

    fn send(&mut self, command: RuntimeCommand) -> ActorRequest {
        let mut request = self.actor.step(ActorInput::Command(command));
        loop {
            request = match request {
                ActorRequest::Write(bytes) => {
                    self.written.push(bytes.clone());
                    self.actor.step(ActorInput::Written(Ok(())));
                    self.output(bytes)
                }
                ActorRequest::ResizePty(size) => {
                    self.resized.push(size);
                    self.actor.step(ActorInput::Resized(Ok(())))
                }
                ActorRequest::Restart(attach) => {
                    self.actor.step(ActorInput::Restarted { attach, result: Ok(()) })
                }
                other => return other,
            };
        }
    }

    fn output(&mut self, bytes: Bytes) -> ActorRequest {
        let generation = self.actor.next_generation() - 1;
        self.actor.step(ActorInput::PtyPolled(Some(PtyEvent {
            generation,
            kind: PtyEventKind::Output(bytes),
        })))
    }

    fn attach(&mut self, id: u64) -> Receiver<ClientOutput> {
        let (output, receiver) = channel(CLIENT_OUTPUT_CAPACITY);
        self.send(RuntimeCommand::AttachClient { client_id: ClientId::new(id), output });
        receiver
    }

    fn input(&mut self, id: u64, bytes: &'static [u8]) -> ActorRequest {
        self.send(RuntimeCommand::Input {
            client_id: ClientId::new(id),
            bytes: Bytes::from_static(bytes),
        })
    }
}

fn received(receiver: &mut Receiver<ClientOutput>) -> Vec<ClientOutput> {
    let mut messages = Vec::new();
    while let Ok(message) = receiver.try_recv() {
        messages.push(message);
    }
    messages
}

fn bytes_of(messages: &[ClientOutput]) -> Vec<u8> {
    let mut all = Vec::new();
    for message in messages {
        if let ClientOutput::Bytes(bytes) = message {
            all.extend_from_slice(bytes);
        }
    }
    all
}

fn lease(owner: LeaseOwner, epoch: u64) -> ClientOutput {
    ClientOutput::Control(ServerControlMessage::LeaseChanged { owner, epoch })
}

fn is_ready(message: &ClientOutput) -> bool {
    matches!(message, ClientOutput::Control(ServerControlMessage::Ready { .. }))
}

#[test]
fn test_should_report_child_exit() {
    let mut session = EchoSession::start(ExitPolicy::End);
    let mut output = session.attach(1);
    session.output(Bytes::from_static(b"done"));
    let request = session.actor.step(ActorInput::ChildPolled(ChildStatus::Exited));
    assert!(matches!(request, ActorRequest::Stop(ShutdownReason::ChildExit)));
    session.actor.close_clients(&ShutdownReason::ChildExit);

    let messages = received(&mut output);
    assert_eq!(bytes_of(&messages), b"done");
    assert_eq!(messages.last(), Some(&ClientOutput::Closed(ShutdownReason::ChildExit)));
}

#[test]
fn test_should_wrap_browser_replay_with_control_markers() {
    let mut session = EchoSession::start(ExitPolicy::Hold);
    let _first = session.attach(1);
    session.input(1, b"replay-marker");

    let mut second = session.attach(2);
    let messages = received(&mut second);
    assert!(is_ready(&messages[0]));
    let started = messages
        .iter()
        .position(|m| matches!(m, ClientOutput::Control(ServerControlMessage::ReplayStarted)))
        .unwrap();
    let finished = messages
        .iter()
        .position(|m| matches!(m, ClientOutput::Control(ServerControlMessage::ReplayFinished)))
        .unwrap();
    assert!(started < finished);
    assert_eq!(bytes_of(&messages[started + 1..finished]), b"replay-marker");
    assert_eq!(finished + 1, messages.len());
}

#[test]
fn test_should_transfer_input_lease_between_terminal_and_browser() {
    let mut session = EchoSession::start(ExitPolicy::Hold);
    let (terminal_tx, mut terminal) = channel(CLIENT_OUTPUT_CAPACITY);
    session.send(RuntimeCommand::AttachTerminal { output: terminal_tx });
    assert_eq!(received(&mut terminal), [lease(LeaseOwner::Terminal, 0)]);

    let mut browser = session.attach(1);
    let messages = received(&mut browser);
    assert!(is_ready(&messages[0]));
    assert!(messages.contains(&lease(LeaseOwner::Terminal, 0)));

    session.input(1, b"browser-lease");
    assert_eq!(received(&mut terminal)[0], lease(LeaseOwner::Browser, 1));
    let messages = received(&mut browser);
    assert_eq!(messages[0], lease(LeaseOwner::Browser, 1));
    assert_eq!(bytes_of(&messages), b"browser-lease");

    session.send(RuntimeCommand::TerminalInput { bytes: Bytes::from_static(b"terminal-lease") });
    let messages = received(&mut terminal);
    assert_eq!(messages[0], lease(LeaseOwner::Terminal, 2));
    assert_eq!(bytes_of(&messages), b"terminal-lease");
    assert_eq!(received(&mut browser)[0], lease(LeaseOwner::Terminal, 2));
}

#[test]
fn test_should_ignore_browser_resize_while_terminal_owns_lease() {
    let mut session = EchoSession::start(ExitPolicy::Hold);
    let (terminal_tx, _terminal) = channel(CLIENT_OUTPUT_CAPACITY);
    session.send(RuntimeCommand::AttachTerminal { output: terminal_tx });
    let _browser = session.attach(1);

    session.send(RuntimeCommand::BrowserResize {
        client_id: ClientId::new(1),
        size: size(120, 40),
    });
    assert!(session.resized.is_empty());
    assert_eq!(session.actor.current_size(), size(80, 24));

    session.input(1, b"x");
    session.send(RuntimeCommand::BrowserResize {
        client_id: ClientId::new(1),
        size: size(120, 40),
    });
    assert!(session.resized.is_empty());
    session.send(RuntimeCommand::Resize { size: size(100, 30) });
    assert_eq!(session.resized, [size(100, 30)]);
}

#[test]
fn test_should_resize_for_the_controlling_browser() {
    let mut session = EchoSession::start(ExitPolicy::Hold);
    let mut browser = session.attach(1);
    received(&mut browser);
    session.send(RuntimeCommand::BrowserResize {
        client_id: ClientId::new(2),
        size: size(120, 40),
    });
    assert!(session.resized.is_empty());
    session.send(RuntimeCommand::BrowserResize {
        client_id: ClientId::new(1),
        size: size(120, 40),
    });
    assert_eq!(session.resized, [size(120, 40)]);
    assert_eq!(
        received(&mut browser),
        [ClientOutput::Control(ServerControlMessage::SizeChanged { size: size(120, 40) })]
    );
}

#[test]
fn test_should_hold_session_after_child_exit() {
    let mut session = EchoSession::start(ExitPolicy::Hold);
    let mut output = session.attach(1);
    session.input(1, b"exit");
    let request = session.actor.step(ActorInput::EventsClosed);
    assert!(!matches!(request, ActorRequest::Stop(_)));
    assert!(received(&mut output).iter().any(|m| matches!(
        m,
        ClientOutput::Control(ServerControlMessage::ProcessExited { .. })
    )));
    session.input(1, b"lost");
    assert_eq!(session.written, [Bytes::from_static(b"exit")]);

    let mut reattached = session.attach(2);
    assert!(is_ready(&received(&mut reattached)[0]));
    session.input(2, b"restarted-after-exit");
    assert_eq!(bytes_of(&received(&mut reattached)), b"restarted-after-exit");
}

#[test]
fn test_should_allow_controller_reattach_after_detach() {
    let mut session = EchoSession::start(ExitPolicy::Hold);
    let mut first = session.attach(1);
    assert!(is_ready(&received(&mut first)[0]));
    session.input(1, b"phase5-before-detach");
    assert_eq!(bytes_of(&received(&mut first)), b"phase5-before-detach");
    session.send(RuntimeCommand::DetachClient { client_id: ClientId::new(1) });

    let mut second = session.attach(2);
    assert!(is_ready(&received(&mut second)[0]));
    session.input(2, b"phase5-after-reattach");
    assert_eq!(bytes_of(&received(&mut second)), b"phase5-after-reattach");
}

#[test]
fn test_should_replace_existing_controller_on_new_attach() {
    let mut session = EchoSession::start(ExitPolicy::Hold);
    let mut first = session.attach(1);
    assert!(is_ready(&received(&mut first)[0]));

    let mut second = session.attach(2);
    assert_eq!(
        received(&mut first),
        [ClientOutput::Closed(ShutdownReason::ControllerReplaced)]
    );
    assert!(is_ready(&received(&mut second)[0]));
    session.input(1, b"should-not-run");
    session.input(2, b"replacement-controller-ok");
    assert_eq!(session.written, [Bytes::from_static(b"replacement-controller-ok")]);
    assert_eq!(bytes_of(&received(&mut second)), b"replacement-controller-ok");
}

#[test]
fn test_should_replay_recent_output_after_reattach() {
    let mut session = EchoSession::start(ExitPolicy::Hold);
    let mut first = session.attach(1);
    session.input(1, b"phase5-replay-state");
    assert_eq!(bytes_of(&received(&mut first)), b"phase5-replay-state");
    session.send(RuntimeCommand::DetachClient { client_id: ClientId::new(1) });

    let mut second = session.attach(2);
    assert_eq!(bytes_of(&received(&mut second)), b"phase5-replay-state");
}

#[test]
fn test_should_close_slow_client_without_stopping_session() {
    let mut session = EchoSession::start(ExitPolicy::Hold);
    let (slow_tx, mut slow) = channel(1);
    session.send(RuntimeCommand::AttachClient { client_id: ClientId::new(1), output: slow_tx });
    session.input(1, b"lost");
    let messages = received(&mut slow);
    assert_eq!(messages.len(), 1);
    assert!(is_ready(&messages[0]));
    assert!(slow.is_closed() || slow.try_recv().is_err());

    let mut recovered = session.attach(2);
    assert!(is_ready(&received(&mut recovered)[0]));
    session.input(2, b"phase5-session-alive");
    assert_eq!(bytes_of(&received(&mut recovered)), b"phase5-session-alive");
}

#[test]
fn test_should_warn_client_that_falls_behind() {
    let mut session = EchoSession::start(ExitPolicy::Hold);
    let (tx, mut slow) = channel(6);
    session.send(RuntimeCommand::AttachClient { client_id: ClientId::new(1), output: tx });
    assert!(is_ready(&received(&mut slow)[0]));
    for _ in 0..6 {
        assert!(!matches!(session.output(Bytes::from_static(b"x")), ActorRequest::Stop(_)));
    }
    session.output(Bytes::from_static(b"y"));
    assert_eq!(bytes_of(&received(&mut slow)), b"xxxxxx");
    session.output(Bytes::from_static(b"z"));
    assert!(received(&mut slow).is_empty());
}

#[test]
fn test_should_bound_replay_by_chunks_with_mailbox_headroom() {
    let total_chunks = CLIENT_OUTPUT_CAPACITY + 25;
    let mut replay = VecDeque::new();
    let mut replay_bytes = 0;

    for index in 0..total_chunks {
        record_replay_chunk(
            &mut replay,
            &mut replay_bytes,
            Bytes::from(format!("chunk-{index:03}")),
        );
    }

    assert_eq!(replay.len(), REPLAY_BUFFER_CHUNKS);
    assert!(replay.len() + 1 < CLIENT_OUTPUT_CAPACITY);
    assert_eq!(replay_bytes, replay.iter().map(Bytes::len).sum::<usize>());
    assert_eq!(
        replay.front(),
        Some(&Bytes::from(format!("chunk-{:03}", total_chunks - REPLAY_BUFFER_CHUNKS)))
    );
    assert_eq!(
        replay.back(),
        Some(&Bytes::from(format!("chunk-{:03}", total_chunks - 1)))
    );
}

#[test]
fn test_should_bound_replay_by_bytes() {
    let mut replay = VecDeque::new();
    let mut replay_bytes = 0;
    let half = Bytes::from(vec![1; 600_000]);
    record_replay_chunk(&mut replay, &mut replay_bytes, half.clone());
    record_replay_chunk(&mut replay, &mut replay_bytes, half);
    assert_eq!(replay.len(), 1);
    assert_eq!(replay_bytes, 600_000);
    record_replay_chunk(&mut replay, &mut replay_bytes, Bytes::from(vec![2; 1_048_577]));
    assert!(replay.is_empty());
    assert_eq!(replay_bytes, 0);
}

#[test]
fn test_should_ignore_events_of_an_earlier_process() {
    let mut session = EchoSession::start(ExitPolicy::End);
    let mut output = session.attach(1);
    received(&mut output);
    let request = session.actor.step(ActorInput::PtyPolled(Some(PtyEvent {
        generation: 7,
        kind: PtyEventKind::Eof,
    })));
    assert!(matches!(request, ActorRequest::PollPty));
    assert!(received(&mut output).is_empty());
}

#[test]
fn test_should_stop_for_its_driver() {
    let mut session = EchoSession::start(ExitPolicy::Hold);
    assert!(matches!(
        session.actor.step(ActorInput::CommandsClosed),
        ActorRequest::Stop(ShutdownReason::Supervisor)
    ));
    assert!(matches!(
        session.actor.step(ActorInput::Written(Err("broken".to_owned()))),
        ActorRequest::Stop(ShutdownReason::RuntimeError(error)) if error == "broken"
    ));
    let (output, mut waiting) = channel(8);
    session.actor.step(ActorInput::EventsClosed);
    let ActorRequest::Restart(attach) = session.actor.step(ActorInput::Command(
        RuntimeCommand::AttachClient { client_id: ClientId::new(1), output },
    )) else {
        panic!("expected a restart");
    };
    assert!(matches!(
        session.actor.step(ActorInput::Restarted { attach, result: Err(RuntimeError::Spawn) }),
        ActorRequest::Stop(ShutdownReason::RuntimeError(_))
    ));
    assert_eq!(
        received(&mut waiting),
        [ClientOutput::Closed(ShutdownReason::RuntimeError(
            "failed to spawn terminal process".to_owned()
        ))]
    );
}

#[test]
fn test_should_give_control_to_the_controller_that_asks() {
    let mut session = EchoSession::start(ExitPolicy::Hold);
    let mut browser = session.attach(1);
    received(&mut browser);
    session.send(RuntimeCommand::AcquireControl { client_id: ClientId::new(2) });
    assert!(received(&mut browser).is_empty());
    session.send(RuntimeCommand::AcquireControl { client_id: ClientId::new(1) });
    assert_eq!(received(&mut browser), [lease(LeaseOwner::Browser, 1)]);
}

#[test]
fn test_should_advertise_truecolor_terminal_environment() {
    let environment = terminal_environment("1.2.3");
    let value = |name: &str| {
        environment.iter().find(|entry| entry.0 == name).map(|entry| entry.1.as_str())
    };

    assert_eq!(value("TERM"), Some("xterm-256color"));
    assert_eq!(value("COLORTERM"), Some("truecolor"));
    assert_eq!(value("CLICOLOR"), Some("1"));
    assert_eq!(value("TERM_PROGRAM"), Some("termstage"));
    assert_eq!(value("NO_COLOR"), None);
    let removed = removed_environment();
    assert!(removed.iter().any(|name| name == "NO_COLOR"));
    assert!(removed.iter().any(|name| name == "ANSI_COLORS_DISABLED"));
}

#[test]
fn test_should_choose_a_shell() {
    let shell = ShellCommand::default_unix(Some(b"/bin/zsh".to_vec())).unwrap();
    assert_eq!(shell.executable(), b"/bin/zsh");
    assert!(shell.args().is_empty());
    assert_eq!(ShellCommand::default_unix(None).unwrap().executable(), b"/bin/sh");
    assert_eq!(ShellCommand::default_unix(Some(Vec::new())).unwrap().executable(), b"/bin/sh");
    assert_eq!(
        ShellCommand::new(Vec::new(), Vec::new()).unwrap_err(),
        RuntimeError::InvalidShellCommand
    );
}

#[test]
fn test_should_show_output_and_notices_on_the_local_terminal() {
    assert!(matches!(
        terminal_step(ClientOutput::Bytes(Bytes::from_static(b"x"))),
        TerminalStep::Write(bytes) if &bytes[..] == b"x"
    ));
    assert!(matches!(
        terminal_step(lease(LeaseOwner::Terminal, 1)),
        TerminalStep::Skip
    ));
    assert!(matches!(
        terminal_step(ClientOutput::Control(ServerControlMessage::ProcessExited {
            message: SafeMessage::from_static("gone")
        })),
        TerminalStep::Notice(text) if text == "\r\n[termstage: gone]\n"
    ));
    assert!(matches!(
        terminal_step(ClientOutput::Closed(ShutdownReason::ChildExit)),
        TerminalStep::Finish(ShutdownReason::ChildExit)
    ));
}

#[test]
fn test_should_tell_what_a_read_gave() {
    let buffer = b"abcdef";
    let (kind, last) = read_event(Ok(3), buffer);
    assert!(matches!(kind, PtyEventKind::Output(bytes) if bytes == Bytes::from_static(b"abc")));
    assert!(!last);
    let (kind, last) = read_event(Ok(0), buffer);
    assert!(matches!(kind, PtyEventKind::Eof));
    assert!(last);
    let (kind, last) = read_event(Ok(7), buffer);
    assert!(matches!(kind, PtyEventKind::ReaderError(error) if error == "invalid pty read size"));
    assert!(last);
    let (kind, last) = read_event(Err("gone".to_owned()), buffer);
    assert!(matches!(kind, PtyEventKind::ReaderError(error) if error == "gone"));
    assert!(last);
}

#[test]
fn test_should_send_each_client_its_own_messages() {
    let mut session = EchoSession::start(ExitPolicy::Hold);
    let (terminal, mut at_terminal) = channel(CLIENT_OUTPUT_CAPACITY);
    session.send(RuntimeCommand::AttachTerminal { output: terminal });
    let mut stale = session.attach(1);
    received(&mut stale);
    let mut fresh = session.attach(1);
    assert!(received(&mut fresh).iter().any(is_ready));
    received(&mut at_terminal);

    session.output(Bytes::from_static(b"hello"));
    assert_eq!(bytes_of(&received(&mut fresh)), b"hello");
    assert_eq!(bytes_of(&received(&mut at_terminal)), b"hello");
    assert!(received(&mut stale).is_empty());

    let mut second = session.attach(2);
    received(&mut second);
    let told = received(&mut fresh);
    assert_eq!(told, [ClientOutput::Closed(ShutdownReason::ControllerReplaced)]);
    session.output(Bytes::from_static(b"more"));
    assert_eq!(bytes_of(&received(&mut second)), b"more");
    assert!(received(&mut fresh).is_empty());
}

#[test]
fn test_should_run_the_same_program_again() {
    let session = EchoSession::start(ExitPolicy::Hold);
    assert_eq!(session.actor.mode(), &config(ExitPolicy::Hold).mode);
}

#[test]
fn test_should_trim_a_replay_buffer_that_is_too_full() {
    let mut replay: VecDeque<Bytes> = (0..200).map(|_| Bytes::from_static(b"x")).collect();
    let mut replay_bytes = 200;
    record_replay_chunk(&mut replay, &mut replay_bytes, Bytes::from_static(b"yz"));
    assert_eq!(replay.len(), REPLAY_BUFFER_CHUNKS);
    assert_eq!(replay_bytes, REPLAY_BUFFER_CHUNKS + 1);
    assert_eq!(replay.back(), Some(&Bytes::from_static(b"yz")));
}

#[test]
fn test_should_detach_who_did_not_take_a_message() {
    let mut session = EchoSession::start(ExitPolicy::Hold);
    let (terminal, mut at_terminal) = channel(CLIENT_OUTPUT_CAPACITY);
    session.send(RuntimeCommand::AttachTerminal { output: terminal });
    let mut client = session.attach(1);
    received(&mut at_terminal);
    received(&mut client);

    assert!(session.actor.settle_broadcast(true, &vec![true, true]).is_empty());
    session.output(Bytes::from_static(b"a"));
    assert_eq!(bytes_of(&received(&mut client)), b"a");
    assert_eq!(bytes_of(&received(&mut at_terminal)), b"a");

    let lost = session.actor.settle_broadcast(true, &vec![true, false]);
    assert_eq!(lost.len(), 1);
    assert_eq!(lost[0].0, ClientId::new(1));
    session.output(Bytes::from_static(b"b"));
    assert!(received(&mut client).is_empty());
    assert_eq!(bytes_of(&received(&mut at_terminal)), b"b");

    session.actor.settle_terminal(true);
    session.output(Bytes::from_static(b"c"));
    assert_eq!(bytes_of(&received(&mut at_terminal)), b"c");
    session.actor.settle_terminal(false);
    session.output(Bytes::from_static(b"d"));
    assert!(received(&mut at_terminal).is_empty());
}

#[test]
fn test_should_not_attach_a_client_whose_mailbox_is_gone() {
    let mut session = EchoSession::start(ExitPolicy::Hold);
    let mut first = session.attach(1);
    received(&mut first);
    let (output, receiver) = channel(CLIENT_OUTPUT_CAPACITY);
    drop(receiver);
    session.send(RuntimeCommand::AttachClient { client_id: ClientId::new(2), output });
    assert_eq!(
        received(&mut first),
        [ClientOutput::Closed(ShutdownReason::ControllerReplaced)]
    );
    let mut third = session.attach(3);
    assert!(received(&mut third).iter().any(is_ready));
}
