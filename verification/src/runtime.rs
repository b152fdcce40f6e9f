//! Runtime session actor.
//!
//! The actor owns the attached frontends, the input lease and the retained
//! output of one terminal process. It decides; whoever drives it performs the
//! terminal input and output that it asks for and reports back.

use bytes::Bytes;
use std::collections::VecDeque;
use vstd::prelude::*;

use crate::outbox::{Delivery, Mailbox, Outbox};
use crate::protocol::{
    ErrorCode, LeaseOwner, ProtocolError, SafeMessage, ServerControlMessage, ServerMessageView,
    SessionName, TerminalSize, WarningCode,
};

verus! {

/// Bounded mailbox capacity for runtime actor commands.
pub const COMMAND_MAILBOX_CAPACITY: usize = 128;

/// Bounded output channel capacity for each client.
pub const CLIENT_OUTPUT_CAPACITY: usize = 256;

/// Size of one read from the terminal process.
pub const PTY_READ_CHUNK_SIZE: usize = 8192;

/// Most bytes kept for reconnecting clients.
pub const REPLAY_BUFFER_BYTES: usize = 1024 * 1024;

/// Most output chunks kept for reconnecting clients.
pub const REPLAY_BUFFER_CHUNKS: usize = CLIENT_OUTPUT_CAPACITY / 2;

/// How long the actor waits for output where no command is there, in milliseconds.
pub const ACTOR_IDLE_WAIT_MILLIS: u64 = 10;

/// Browser/client identifier.
#[derive(Debug, Clone, Copy, PartialEq, Eq, Hash, Structural)]
pub struct ClientId(u64);

impl View for ClientId {
    type V = u64;

    closed spec fn view(&self) -> u64 {
        self.0
    }
}

impl ClientId {
    /// Creates a client id.
    #[must_use]
    pub fn new(value: u64) -> (r: Self)
        ensures
            r@ == value,
    {
        ClientId(value)
    }

    /// Returns the raw id.
    #[must_use]
    pub fn get(self) -> (r: u64)
        ensures
            r == self@,
    {
        self.0
    }

    fn same(self, other: Self) -> (r: bool)
        ensures
            r == (self@ == other@),
            r == (self == other),
    {
        self.0 == other.0
    }
}

/// Runtime failure.
#[derive(Debug, Clone, Copy, PartialEq, Eq, Structural)]
pub enum RuntimeError {
    /// The configured shell command is invalid.
    InvalidShellCommand,
    /// The runtime could not resolve a default shell.
    DefaultShellUnavailable,
    /// The tmux executable could not be found.
    TmuxUnavailable,
    /// Opening the PTY failed.
    OpenPty,
    /// Spawning the configured process failed.
    Spawn,
    /// Cloning the PTY reader failed.
    CloneReader,
    /// Taking the PTY writer failed.
    TakeWriter,
    /// Spawning a runtime thread failed.
    ThreadSpawn,
    /// Sending a command to the actor failed because it has stopped.
    ActorStopped,
    /// Joining the actor thread failed.
    ActorPanicked,
}

impl RuntimeError {
    /// The text that describes the failure.
    pub open spec fn text(self) -> Seq<char> {
        match self {
            RuntimeError::InvalidShellCommand => "invalid shell command"@,
            RuntimeError::DefaultShellUnavailable => "failed to resolve default shell"@,
            RuntimeError::TmuxUnavailable => "tmux executable was not found"@,
            RuntimeError::OpenPty => "failed to open pty"@,
            RuntimeError::Spawn => "failed to spawn terminal process"@,
            RuntimeError::CloneReader => "failed to clone pty reader"@,
            RuntimeError::TakeWriter => "failed to take pty writer"@,
            RuntimeError::ThreadSpawn => "failed to spawn runtime thread"@,
            RuntimeError::ActorStopped => "runtime actor has stopped"@,
            RuntimeError::ActorPanicked => "runtime actor thread panicked"@,
        }
    }

    /// Describes the failure.
    pub fn message(self) -> (r: &'static str)
        ensures
            r@ == self.text(),
    {
        match self {
            RuntimeError::InvalidShellCommand => "invalid shell command",
            RuntimeError::DefaultShellUnavailable => "failed to resolve default shell",
            RuntimeError::TmuxUnavailable => "tmux executable was not found",
            RuntimeError::OpenPty => "failed to open pty",
            RuntimeError::Spawn => "failed to spawn terminal process",
            RuntimeError::CloneReader => "failed to clone pty reader",
            RuntimeError::TakeWriter => "failed to take pty writer",
            RuntimeError::ThreadSpawn => "failed to spawn runtime thread",
            RuntimeError::ActorStopped => "runtime actor has stopped",
            RuntimeError::ActorPanicked => "runtime actor thread panicked",
        }
    }
}

/// Shell process command represented in argv form, each part as the bytes that
/// the operating system takes.
#[derive(Debug, Clone, PartialEq, Eq)]
pub struct ShellCommand {
    executable: Vec<u8>,
    args: Vec<Vec<u8>>,
}

impl ShellCommand {
    /// The bytes of the executable path.
    pub closed spec fn executable_bytes(&self) -> Seq<u8> {
        self.executable@
    }

    /// The argv tail.
    pub closed spec fn arg_list(&self) -> Seq<Vec<u8>> {
        self.args@
    }

    /// Creates a shell command from an executable path that is not empty and an
    /// argument vector.
    pub fn new(executable: Vec<u8>, args: Vec<Vec<u8>>) -> (r: Result<Self, RuntimeError>)
        ensures
            match r {
                Ok(shell) => {
                    &&& executable@.len() > 0
                    &&& shell.executable_bytes() == executable@
                    &&& shell.arg_list() == args@
                },
                Err(error) => executable@.len() == 0 && error == RuntimeError::InvalidShellCommand,
            },
    {
        if executable.is_empty() {
            return Err(RuntimeError::InvalidShellCommand);
        }
        Ok(ShellCommand { executable, args })
    }

    /// The shell that the `SHELL` variable names, or `/bin/sh` where it is
    /// absent or empty.
    pub fn default_unix(shell: Option<Vec<u8>>) -> (r: Result<Self, RuntimeError>)
        ensures
            r matches Ok(command) && {
                &&& command.arg_list().len() == 0
                &&& command.executable_bytes() == (match shell {
                    Some(path) if path@.len() > 0 => path@,
                    _ => vstd::utf8::encode_utf8("/bin/sh"@),
                })
            },
    {
        let fallback = "/bin/sh";
        let executable = match shell {
            Some(path) if !path.is_empty() => path,
            _ => vstd::slice::slice_to_vec(fallback.as_bytes()),
        };
        proof {
            reveal_strlit("/bin/sh");
            vstd::utf8::is_ascii_chars_encode_utf8("/bin/sh"@);
            assert(vstd::utf8::encode_utf8("/bin/sh"@).len() == 7);
        }
        ShellCommand::new(executable, Vec::new())
    }

    /// Returns the executable path.
    #[must_use]
    pub fn executable(&self) -> (r: &[u8])
        ensures
            r@ == self.executable_bytes(),
    {
        self.executable.as_slice()
    }

    /// Returns the argv tail.
    #[must_use]
    pub fn args(&self) -> (r: &[Vec<u8>])
        ensures
            r@ == self.arg_list(),
    {
        self.args.as_slice()
    }
}

/// Runtime session mode.
#[derive(Debug, Clone, PartialEq, Eq)]
pub enum SessionMode {
    /// Spawn a new local shell process.
    NewShell {
        /// Shell command in argv form.
        shell: ShellCommand,
    },
    /// Attach to or create a tmux session.
    Tmux {
        /// Validated tmux session name.
        session: SessionName,
    },
}

/// Runtime reconnect and shutdown behavior.
#[derive(Debug, Clone, Copy, PartialEq, Eq, Structural)]
pub enum ReconnectPolicy {
    /// Keep the PTY process alive across client detach where the child supports it.
    KeepAlive,
    /// Terminate the child when the runtime actor shuts down.
    TerminateOnShutdown,
}

/// Behavior after the terminal child exits.
#[derive(Debug, Clone, Copy, PartialEq, Eq, Structural)]
pub enum ExitPolicy {
    /// Keep the browser session open and report the exited process.
    Hold,
    /// Close the browser session when the terminal child exits.
    End,
}

/// Runtime configuration.
#[derive(Debug, Clone, PartialEq, Eq)]
pub struct RuntimeConfig {
    /// Shell or tmux mode.
    pub mode: SessionMode,
    /// Initial PTY size.
    pub initial_size: TerminalSize,
    /// Reconnect behavior.
    pub reconnect_policy: ReconnectPolicy,
    /// Child process exit behavior.
    pub exit_policy: ExitPolicy,
}

/// The contents of a [`ShutdownReason`].
pub enum ReasonView {
    Supervisor,
    ClientDisconnect,
    ControllerReplaced,
    ChildExit,
    RuntimeError(Seq<char>),
}

/// Reason for runtime shutdown.
#[derive(Debug, PartialEq, Eq)]
pub enum ShutdownReason {
    /// Server supervisor requested shutdown.
    Supervisor,
    /// The browser/client disconnected.
    ClientDisconnect,
    /// A newer browser/client took over the controller role.
    ControllerReplaced,
    /// The child process exited or the PTY reached EOF.
    ChildExit,
    /// Runtime error.
    RuntimeError(String),
}

impl View for ShutdownReason {
    type V = ReasonView;

    open spec fn view(&self) -> ReasonView {
        match *self {
            ShutdownReason::Supervisor => ReasonView::Supervisor,
            ShutdownReason::ClientDisconnect => ReasonView::ClientDisconnect,
            ShutdownReason::ControllerReplaced => ReasonView::ControllerReplaced,
            ShutdownReason::ChildExit => ReasonView::ChildExit,
            ShutdownReason::RuntimeError(error) => ReasonView::RuntimeError(error@),
        }
    }
}

impl Clone for ShutdownReason {
    fn clone(&self) -> (r: Self)
        ensures
            r == *self,
    {
        match self {
            ShutdownReason::Supervisor => ShutdownReason::Supervisor,
            ShutdownReason::ClientDisconnect => ShutdownReason::ClientDisconnect,
            ShutdownReason::ControllerReplaced => ShutdownReason::ControllerReplaced,
            ShutdownReason::ChildExit => ShutdownReason::ChildExit,
            ShutdownReason::RuntimeError(error) => ShutdownReason::RuntimeError(error.clone()),
        }
    }
}

/// `tokio::sync::mpsc::Sender`, the sending half of a bounded channel.
#[verifier::external_type_specification]
#[verifier::external_body]
#[verifier::reject_recursive_types(T)]
pub struct ExSender<T>(tokio::sync::mpsc::Sender<T>);

/// Bounded client output sender.
pub type ClientOutputTx = tokio::sync::mpsc::Sender<ClientOutput>;

/// The contents of a [`ClientOutput`].
pub enum OutputView {
    Bytes(Seq<u8>),
    Control(ServerMessageView),
    Closed(ReasonView),
}

/// Output emitted from the runtime to a client.
#[derive(Debug, PartialEq, Eq)]
pub enum ClientOutput {
    /// Raw PTY bytes.
    Bytes(Bytes),
    /// Server control message.
    Control(ServerControlMessage),
    /// Runtime closed the client stream.
    Closed(ShutdownReason),
}

impl View for ClientOutput {
    type V = OutputView;

    open spec fn view(&self) -> OutputView {
        match *self {
            ClientOutput::Bytes(bytes) => OutputView::Bytes(crate::octets::octets(bytes)),
            ClientOutput::Control(message) => OutputView::Control(message@),
            ClientOutput::Closed(reason) => OutputView::Closed(reason@),
        }
    }
}

impl Clone for ClientOutput {
    fn clone(&self) -> (r: Self)
        ensures
            r@ == self@,
    {
        match self {
            ClientOutput::Bytes(bytes) => ClientOutput::Bytes(bytes.clone()),
            ClientOutput::Control(message) => ClientOutput::Control(message.clone()),
            ClientOutput::Closed(reason) => ClientOutput::Closed(reason.clone()),
        }
    }
}

/// Runtime actor command.
#[derive(Debug)]
#[allow(inconsistent_fields)]
pub enum RuntimeCommand {
    /// Attach the local terminal frontend.
    AttachTerminal {
        /// Bounded output mailbox.
        output: ClientOutputTx,
    },
    /// Attach a write-capable browser client.
    AttachClient {
        /// Client id.
        client_id: ClientId,
        /// Bounded output mailbox.
        output: ClientOutputTx,
    },
    /// Detach a browser client.
    DetachClient {
        /// Client id.
        client_id: ClientId,
    },
    /// Take the input lease for the controlling client.
    AcquireControl {
        /// Client id.
        client_id: ClientId,
    },
    /// Write bytes to the PTY from the local terminal frontend.
    TerminalInput {
        /// Terminal bytes.
        bytes: Bytes,
    },
    /// Write bytes to the PTY from the controlling client.
    Input {
        /// Client id.
        client_id: ClientId,
        /// Terminal bytes.
        bytes: Bytes,
    },
    /// Resize the PTY.
    Resize {
        /// New PTY size.
        size: TerminalSize,
    },
    /// Resize the PTY from a browser client.
    BrowserResize {
        /// Client id.
        client_id: ClientId,
        /// New PTY size.
        size: TerminalSize,
    },
    /// Shut the runtime down.
    Shutdown {
        /// Shutdown reason.
        reason: ShutdownReason,
    },
}

/// The bytes of each chunk.
pub open spec fn chunk_bytes(chunks: Seq<Bytes>) -> Seq<Seq<u8>> {
    chunks.map_values(|chunk: Bytes| crate::octets::octets(chunk))
}

/// Number of bytes in all chunks together.
pub open spec fn total_len(chunks: Seq<Seq<u8>>) -> nat
    decreases chunks.len(),
{
    if chunks.len() == 0 {
        0
    } else {
        chunks[0].len() + total_len(chunks.drop_first())
    }
}

/// Tells whether the replay buffer may hold `chunks`.
pub open spec fn fits_replay(chunks: Seq<Seq<u8>>) -> bool {
    total_len(chunks) <= REPLAY_BUFFER_BYTES && chunks.len() <= REPLAY_BUFFER_CHUNKS
}

/// The longest tail of `chunks` that the replay buffer may hold.
pub open spec fn retained(chunks: Seq<Seq<u8>>) -> Seq<Seq<u8>>
    decreases chunks.len(),
{
    if chunks.len() == 0 || fits_replay(chunks) {
        chunks
    } else {
        retained(chunks.drop_first())
    }
}

proof fn lemma_total_push(chunks: Seq<Seq<u8>>, chunk: Seq<u8>)
    ensures
        total_len(chunks.push(chunk)) == total_len(chunks) + chunk.len(),
    decreases chunks.len(),
{
    if chunks.len() == 0 {
        assert(chunks.push(chunk).drop_first() =~= seq![]);
        assert(total_len(chunks.push(chunk).drop_first()) == 0);
    } else {
        lemma_total_push(chunks.drop_first(), chunk);
        assert(chunks.push(chunk).drop_first() =~= chunks.drop_first().push(chunk));
    }
}

proof fn lemma_total_tail(chunks: Seq<Seq<u8>>, i: int)
    requires
        0 <= i <= chunks.len(),
    ensures
        total_len(chunks.skip(i)) <= total_len(chunks),
    decreases i,
{
    if i == 0 {
        assert(chunks.skip(0) =~= chunks);
    } else {
        lemma_total_tail(chunks.drop_first(), i - 1);
        assert(chunks.drop_first().skip(i - 1) =~= chunks.skip(i));
    }
}

/// The replay buffer holds what it may, a tail of what it was given, and no
/// longer tail would do.
pub proof fn law_retained_is_longest_tail(chunks: Seq<Seq<u8>>)
    ensures
        fits_replay(retained(chunks)),
        exists|i: int|
            0 <= i <= chunks.len() && retained(chunks) == #[trigger] chunks.skip(i) && (i > 0
                ==> !fits_replay(chunks.skip(i - 1))),
    decreases chunks.len(),
{
    if chunks.len() == 0 || fits_replay(chunks) {
        assert(chunks.skip(0) =~= chunks);
    } else {
        law_retained_is_longest_tail(chunks.drop_first());
        let rest = chunks.drop_first();
        let i = choose|i: int|
            0 <= i <= rest.len() && retained(rest) == #[trigger] rest.skip(i) && (i > 0
                ==> !fits_replay(rest.skip(i - 1)));
        assert(rest.skip(i) =~= chunks.skip(i + 1));
        if i > 0 {
            assert(rest.skip(i - 1) =~= chunks.skip(i));
        } else {
            assert(chunks.skip(0) =~= chunks);
        }
    }
}

/// Adds a chunk of output to the retained output, and forgets the oldest chunks
/// beyond its bounds.
pub fn record_replay_chunk(replay: &mut VecDeque<Bytes>, replay_bytes: &mut usize, bytes: Bytes)
    requires
        *old(replay_bytes) == total_len(chunk_bytes(old(replay)@)),
    ensures
        chunk_bytes(final(replay)@) == retained(
            chunk_bytes(old(replay)@).push(crate::octets::octets(bytes)),
        ),
        *final(replay_bytes) == total_len(chunk_bytes(final(replay)@)),
        fits_replay(chunk_bytes(final(replay)@)),
{
    let ghost chunk = crate::octets::octets(bytes);
    let ghost target = retained(chunk_bytes(replay@).push(chunk));
    proof {
        lemma_total_push(chunk_bytes(replay@), chunk);
        assert(chunk_bytes(replay@.push(bytes)) =~= chunk_bytes(replay@).push(chunk));
    }
    let mut count: u128 = *replay_bytes as u128 + crate::octets::bytes_len(&bytes) as u128;
    replay.push_back(bytes);
    while count > REPLAY_BUFFER_BYTES as u128 || replay.len() > REPLAY_BUFFER_CHUNKS
        invariant
            retained(chunk_bytes(replay@)) == target,
            count == total_len(chunk_bytes(replay@)),
        decreases replay@.len(),
    {
        let ghost before = replay@;
        match replay.pop_front() {
            Some(removed) => {
                proof {
                    assert(chunk_bytes(before).drop_first() =~= chunk_bytes(replay@));
                }
                count = count - crate::octets::bytes_len(&removed) as u128;
            },
            None => {
                proof {
                    assert(chunk_bytes(replay@) =~= seq![]);
                }
            },
        }
    }
    *replay_bytes = count as usize;
}

/// Who may write to the terminal process.
#[derive(Debug, Clone, Copy, PartialEq, Eq, Structural)]
pub enum InputLeaseOwner {
    /// The local terminal frontend.
    Terminal,
    /// A browser client.
    Browser(ClientId),
}

impl InputLeaseOwner {
    /// The owner as clients are told.
    pub open spec fn protocol(self) -> LeaseOwner {
        match self {
            InputLeaseOwner::Terminal => LeaseOwner::Terminal,
            InputLeaseOwner::Browser(_) => LeaseOwner::Browser,
        }
    }

    fn protocol_owner(self) -> (r: LeaseOwner)
        ensures
            r == self.protocol(),
    {
        match self {
            InputLeaseOwner::Terminal => LeaseOwner::Terminal,
            InputLeaseOwner::Browser(_) => LeaseOwner::Browser,
        }
    }
}

/// Who a message is for.
pub enum Recipient {
    Terminal,
    Client(u64),
}

/// The results of the deliveries that `after` has beyond `before`.
pub open spec fn results(before: Seq<Delivery>, after: Seq<Delivery>) -> Seq<bool> {
    Seq::new(
        (after.len() - before.len()) as nat,
        |i: int| after[before.len() + i].delivered,
    )
}

/// The same message into several mailboxes, with the given results.
pub open spec fn to_each(
    mailboxes: Seq<ClientOutputTx>,
    message: OutputView,
    results: Seq<bool>,
) -> Seq<Delivery> {
    Seq::new(
        mailboxes.len(),
        |i: int| Delivery { mailbox: mailboxes[i], message, delivered: results[i] },
    )
}

/// Several messages into one mailbox, with the given results, up to the first
/// that it refuses.
pub open spec fn in_turn(
    mailbox: ClientOutputTx,
    messages: Seq<OutputView>,
    results: Seq<bool>,
) -> Seq<Delivery> {
    Seq::new(
        attempts(messages.len(), results),
        |i: int| Delivery { mailbox, message: messages[i], delivered: results[i] },
    )
}

/// How many of `n` messages are accepted before one is refused.
pub open spec fn accepted(n: nat, results: Seq<bool>) -> nat
    decreases n,
{
    if n == 0 || !results[0] {
        0
    } else {
        1 + accepted((n - 1) as nat, results.drop_first())
    }
}

/// How many of `n` messages are tried, the first refused one included.
pub open spec fn attempts(n: nat, results: Seq<bool>) -> nat {
    if accepted(n, results) < n {
        accepted(n, results) + 1
    } else {
        n
    }
}

/// The ids of attached clients.
pub open spec fn ids(clients: Seq<(u64, ClientOutputTx)>) -> Seq<u64> {
    clients.map_values(|client: (u64, ClientOutputTx)| client.0)
}

/// The mailbox of a client, where it is attached.
pub open spec fn mailbox_of(clients: Seq<(u64, ClientOutputTx)>, client: u64) -> Option<
    ClientOutputTx,
>
    decreases clients.len(),
{
    if clients.len() == 0 {
        None
    } else if clients.last().0 == client {
        Some(clients.last().1)
    } else {
        mailbox_of(clients.drop_last(), client)
    }
}

/// The clients whose results are good.
pub open spec fn reached(clients: Seq<(u64, ClientOutputTx)>, results: Seq<bool>) -> Seq<
    (u64, ClientOutputTx),
>
    decreases clients.len(),
{
    if clients.len() == 0 {
        seq![]
    } else {
        let rest = reached(clients.drop_last(), results);
        if results[clients.len() - 1] {
            rest.push(clients.last())
        } else {
            rest
        }
    }
}

/// The clients whose results are bad.
pub open spec fn missed(clients: Seq<(u64, ClientOutputTx)>, results: Seq<bool>) -> Seq<
    (u64, ClientOutputTx),
>
    decreases clients.len(),
{
    if clients.len() == 0 {
        seq![]
    } else {
        let rest = missed(clients.drop_last(), results);
        if results[clients.len() - 1] {
            rest
        } else {
            rest.push(clients.last())
        }
    }
}

/// What each slow client is told in its mailbox when it is closed: a warning, then
/// the close.
pub open spec fn close_notices(clients: Seq<(u64, ClientOutputTx)>) -> Seq<
    (ClientOutputTx, OutputView),
>
    decreases clients.len(),
{
    if clients.len() == 0 {
        seq![]
    } else {
        let mailbox = clients.last().1;
        close_notices(clients.drop_last()).push((mailbox, backpressure_warning())).push(
            (mailbox, OutputView::Closed(ReasonView::ClientDisconnect)),
        )
    }
}

/// The warning for a client that cannot keep up.
pub open spec fn backpressure_warning() -> OutputView {
    OutputView::Control(
        ServerMessageView::Warning {
            code: WarningCode::ClientBackpressure,
            message: "browser client could not keep up"@,
        },
    )
}

/// `clients` without `client`.
pub open spec fn without(clients: Seq<(u64, ClientOutputTx)>, client: u64) -> Seq<
    (u64, ClientOutputTx),
>
    decreases clients.len(),
{
    if clients.len() == 0 {
        seq![]
    } else {
        let rest = without(clients.drop_last(), client);
        if clients.last().0 == client {
            rest
        } else {
            rest.push(clients.last())
        }
    }
}

/// The state of a [`SessionActor`].
#[verifier::ext_equal]
pub struct ActorView {
    /// What the session runs, and what a new terminal process is to run.
    pub mode: SessionMode,
    /// What happens when the terminal process exits.
    pub exit_policy: ExitPolicy,
    /// Number of the terminal process whose output counts.
    pub generation: u64,
    /// Mailbox of the local terminal frontend, where it is attached.
    pub terminal: Option<ClientOutputTx>,
    /// Attached browser clients, each with its mailbox.
    pub clients: Seq<(u64, ClientOutputTx)>,
    /// Browser client that may write.
    pub controller: Option<u64>,
    /// Owner of the input lease.
    pub owner: InputLeaseOwner,
    /// Number of the input lease.
    pub epoch: u64,
    /// Whether the terminal process has exited.
    pub child_exited: bool,
    /// Terminal size.
    pub size: TerminalSize,
    /// Retained output.
    pub replay: Seq<Seq<u8>>,
    /// Everything that was sent, or refused by a mailbox.
    pub log: Seq<Delivery>,
}

/// The mailboxes of browser clients.
pub open spec fn browser_mailboxes(clients: Seq<(u64, ClientOutputTx)>) -> Seq<ClientOutputTx> {
    clients.map_values(|client: (u64, ClientOutputTx)| client.1)
}

impl ActorView {
    /// No client is attached twice, the controller is attached, and the
    /// retained output is within its bounds.
    pub open spec fn valid(self) -> bool {
        &&& ids(self.clients).no_duplicates()
        &&& self.controller matches Some(client) ==> ids(self.clients).contains(client)
        &&& fits_replay(self.replay)
    }

    /// Tells whether a browser client is attached.
    pub open spec fn attached(self, client: u64) -> bool {
        ids(self.clients).contains(client)
    }

    /// The message that tells who owns the input lease.
    pub open spec fn lease_message(self) -> OutputView {
        OutputView::Control(
            ServerMessageView::LeaseChanged { owner: self.owner.protocol(), epoch: self.epoch },
        )
    }

    /// The message that tells the terminal size.
    pub open spec fn size_message(self) -> OutputView {
        OutputView::Control(ServerMessageView::SizeChanged { size: self.size })
    }

    /// The mailboxes of everyone attached, that of the terminal first.
    pub open spec fn recipients(self, with_terminal: bool) -> Seq<ClientOutputTx> {
        (match self.terminal {
            Some(mailbox) if with_terminal => seq![mailbox],
            _ => seq![],
        }) + browser_mailboxes(self.clients)
    }

    /// After `message` was sent to everyone attached. Who could not be reached is
    /// detached.
    pub open spec fn broadcast(
        self,
        message: OutputView,
        with_terminal: bool,
        results: Seq<bool>,
    ) -> ActorView {
        ActorView {
            log: self.log + to_each(self.recipients(with_terminal), message, results),
            ..self.settled(with_terminal, results)
        }
    }

    /// After everyone attached was sent a message, which the mailboxes answered with
    /// `results`. Who could not be reached is detached.
    pub open spec fn settled(self, with_terminal: bool, results: Seq<bool>) -> ActorView {
        let asked = with_terminal && self.terminal is Some;
        let answers = if asked {
            results.skip(1)
        } else {
            results
        };
        let clients = reached(self.clients, answers);
        ActorView {
            terminal: if asked && !results[0] {
                None
            } else {
                self.terminal
            },
            clients,
            controller: match self.controller {
                Some(client) if ids(clients).contains(client) => Some(client),
                _ => None,
            },
            ..self
        }
    }

    /// The clients that a broadcast does not reach.
    pub open spec fn lost(self, with_terminal: bool, results: Seq<bool>) -> Seq<
        (u64, ClientOutputTx),
    > {
        missed(
            self.clients,
            if with_terminal && self.terminal is Some {
                results.skip(1)
            } else {
                results
            },
        )
    }

    /// After the terminal process wrote `bytes`.
    pub open spec fn output(self, bytes: Seq<u8>, results: Seq<bool>) -> ActorView {
        let kept = ActorView { replay: retained(self.replay.push(bytes)), ..self };
        let sent = kept.broadcast(OutputView::Bytes(bytes), true, results);
        let notices = close_notices(kept.lost(true, results));
        let from = self.recipients(true).len();
        ActorView {
            log: sent.log + Seq::new(
                notices.len(),
                |i: int|
                    Delivery {
                        mailbox: notices[i].0,
                        message: notices[i].1,
                        delivered: results[from + i],
                    },
            ),
            ..sent
        }
    }

    /// After `owner` claimed the input lease.
    pub open spec fn claim(self, owner: InputLeaseOwner, results: Seq<bool>) -> ActorView {
        if self.owner == owner {
            self
        } else {
            let claimed = ActorView {
                owner,
                epoch: if self.epoch == u64::MAX {
                    u64::MAX
                } else {
                    (self.epoch + 1) as u64
                },
                ..self
            };
            claimed.broadcast(claimed.lease_message(), true, results)
        }
    }

    /// After the terminal process exited.
    pub open spec fn child_exit(self, results: Seq<bool>) -> (ActorView, Option<ReasonView>) {
        if self.child_exited {
            (self, None)
        } else if self.exit_policy == ExitPolicy::End {
            (self, Some(ReasonView::ChildExit))
        } else {
            (
                ActorView { child_exited: true, ..self }.broadcast(
                    OutputView::Control(
                        ServerMessageView::ProcessExited {
                            message: "The terminal process exited."@,
                        },
                    ),
                    true,
                    results,
                ),
                None,
            )
        }
    }

    /// After a new terminal process was started.
    pub open spec fn restart(self) -> ActorView {
        ActorView {
            generation: if self.generation == u64::MAX {
                u64::MAX
            } else {
                (self.generation + 1) as u64
            },
            child_exited: false,
            replay: seq![],
            ..self
        }
    }

    /// What a browser client is sent when it attaches.
    pub open spec fn attach_messages(self) -> Seq<OutputView> {
        seq![
            OutputView::Control(
                ServerMessageView::Ready { session: session_display_name(self.mode) },
            ),
            self.size_message(),
        ] + (if self.terminal is Some || self.owner is Browser {
            seq![self.lease_message()]
        } else {
            seq![]
        }) + seq![OutputView::Control(ServerMessageView::ReplayStarted)] + self.replay.map_values(
            |bytes: Seq<u8>| OutputView::Bytes(bytes),
        ) + seq![OutputView::Control(ServerMessageView::ReplayFinished)]
    }

    /// After the controller before `client` was told that it is replaced. Nobody has
    /// control then.
    pub open spec fn hand_over(self, client: u64, results: Seq<bool>) -> ActorView {
        match self.controller {
            Some(previous) if previous != client => match mailbox_of(self.clients, previous) {
                Some(mailbox) => ActorView {
                    clients: without(self.clients, previous),
                    controller: None,
                    log: self.log.push(
                        Delivery {
                            mailbox,
                            message: OutputView::Closed(ReasonView::ControllerReplaced),
                            delivered: results[0],
                        },
                    ),
                    ..self
                },
                None => self,
            },
            _ => self,
        }
    }

    /// After browser client `client` was sent what it is told when it attaches. Where its
    /// mailbox `output` took `all` of it, the client is attached with it, once, and has
    /// control. Else nobody has control.
    pub open spec fn attach_settled(
        self,
        client: u64,
        output: ClientOutputTx,
        all: bool,
    ) -> ActorView {
        if all {
            ActorView {
                clients: without(self.clients, client).push((client, output)),
                controller: Some(client),
                ..self
            }
        } else {
            ActorView { controller: None, ..self }
        }
    }

    /// After the local terminal frontend was sent the retained output. It stays attached
    /// where its mailbox took `all` of it.
    pub open spec fn terminal_settled(self, all: bool) -> ActorView {
        ActorView {
            terminal: if all {
                self.terminal
            } else {
                None
            },
            ..self
        }
    }

    /// After browser client `client` attached with mailbox `output`. It is the
    /// controller, unless its mailbox refused a message.
    pub open spec fn attach_client(
        self,
        client: u64,
        output: ClientOutputTx,
        results: Seq<bool>,
    ) -> ActorView {
        let base = self.hand_over(client, results);
        let rest = results.skip(base.log.len() - self.log.len());
        let messages = base.attach_messages();
        ActorView {
            log: base.log + in_turn(output, messages, rest),
            ..base.attach_settled(
                client,
                output,
                accepted(messages.len(), rest) == messages.len(),
            )
        }
    }

    /// After the local terminal frontend attached with mailbox `output`.
    pub open spec fn attach_terminal(
        self,
        output: ClientOutputTx,
        results: Seq<bool>,
    ) -> ActorView {
        let base = ActorView { terminal: Some(output), ..self };
        let told = if base.owner == InputLeaseOwner::Terminal {
            base.broadcast(base.lease_message(), true, results)
        } else {
            base.claim(InputLeaseOwner::Terminal, results)
        };
        let rest = results.skip(told.log.len() - self.log.len());
        let messages = told.replay.map_values(|bytes: Seq<u8>| OutputView::Bytes(bytes));
        if told.terminal is Some {
            ActorView {
                log: told.log + in_turn(output, messages, rest),
                ..told.terminal_settled(accepted(messages.len(), rest) == messages.len())
            }
        } else {
            told
        }
    }

    /// After browser client `client` left.
    pub open spec fn detach(self, client: u64) -> ActorView {
        ActorView {
            clients: without(self.clients, client),
            controller: if self.controller == Some(client) {
                None
            } else {
                self.controller
            },
            ..self
        }
    }

    /// After everyone was told that the session closed.
    pub open spec fn close(self, reason: ReasonView, results: Seq<bool>) -> ActorView {
        ActorView {
            terminal: None,
            clients: seq![],
            controller: None,
            log: self.log + to_each(self.recipients(true), OutputView::Closed(reason), results),
            ..self
        }
    }
}

/// The contents of several messages.
pub open spec fn output_views(messages: Seq<ClientOutput>) -> Seq<OutputView> {
    messages.map_values(|message: ClientOutput| message@)
}

proof fn lemma_accepted(n: nat, results: Seq<bool>, i: nat)
    requires
        i <= n,
        i <= results.len(),
        forall|k: int| 0 <= k < i ==> #[trigger] results[k],
        i < n ==> i < results.len() && !results[i as int],
    ensures
        accepted(n, results) == i,
    decreases n,
{
    if i > 0 {
        assert(results[0]);
        let rest = results.drop_first();
        assert forall|k: int| 0 <= k < i - 1 implies #[trigger] rest[k] by {
            assert(rest[k] == results[k + 1]);
        }
        lemma_accepted((n - 1) as nat, rest, (i - 1) as nat);
    }
}

/// Sends `messages` in turn, up to the first that the mailbox refuses.
fn post_in_turn(
    log: &mut Outbox,
    output: &Mailbox,
    messages: &Vec<ClientOutput>,
) -> (all: bool)
    requires
        output.owner() == old(log).id(),
    ensures
        final(log).id() == old(log).id(),
        ({
            let n = messages@.len();
            let results = results(old(log)@, final(log)@);
            &&& old(log)@.len() <= final(log)@.len()
            &&& final(log)@ == old(log)@ + in_turn(output.sender(), output_views(messages@), results)
            &&& results.len() == attempts(n, results)
            &&& all == (accepted(n, results) == n)
        }),
{
    let ghost before = log@;
    let ghost views = output_views(messages@);
    let ghost n = messages@.len();
    let mut i: usize = 0;
    while i < messages.len()
        invariant
            i <= messages@.len(),
            n == messages@.len(),
            output.owner() == log.id(),
            log.id() == old(log).id(),
            before == old(log)@,
            views == output_views(messages@),
            log@.len() == before.len() + i,
            forall|k: int|
                0 <= k < i ==> #[trigger] log@[before.len() + k] == (Delivery {
                    mailbox: output.sender(),
                    message: views[k],
                    delivered: true,
                }),
            log@.take(before.len() as int) == before,
        decreases messages@.len() - i,
    {
        let ghost sent = log@;
        let delivered = log.post(output, messages[i].clone());
        proof {
            assert(log@.take(before.len() as int) =~= sent.take(before.len() as int));
            assert(views[i as int] == messages@[i as int]@);
        }
        if !delivered {
            proof {
                let answers = results(before, log@);
                assert forall|k: int| 0 <= k < i implies #[trigger] answers[k] by {
                    assert(log@[before.len() + k] == sent[before.len() + k]);
                }
                lemma_accepted(n, answers, i as nat);
                assert(log@ =~= before + in_turn(output.sender(), views, answers)) by {
                    assert forall|k: int| 0 <= k < log@.len() implies log@[k] == (before
                        + in_turn(output.sender(), views, answers))[k] by {
                        if k < before.len() {
                            assert(log@[k] == log@.take(before.len() as int)[k]);
                        } else {
                            assert(log@[before.len() + (k - before.len())] == log@[k]);
                        }
                    }
                }
            }
            return false;
        }
        i += 1;
    }
    proof {
        let answers = results(before, log@);
        assert forall|k: int| 0 <= k < n implies #[trigger] answers[k] by {
            assert(log@[before.len() + k].delivered);
        }
        lemma_accepted(n, answers, n);
        assert forall|k: int| 0 <= k < log@.len() implies log@[k] == (before + in_turn(
            output.sender(),
            views,
            answers,
        ))[k] by {
            if k < before.len() {
                assert(log@[k] == log@.take(before.len() as int)[k]);
            } else {
                assert(log@[before.len() + (k - before.len())] == log@[k]);
            }
        }
        assert(log@ =~= before + in_turn(output.sender(), views, answers));
    }
    true
}

pub(crate) proof fn lemma_ids_push(clients: Seq<(u64, ClientOutputTx)>, client: (u64, ClientOutputTx))
    ensures
        ids(clients.push(client)) == ids(clients).push(client.0),
{
    assert(ids(clients.push(client)) =~= ids(clients).push(client.0));
}

pub(crate) proof fn lemma_ids_drop_last(clients: Seq<(u64, ClientOutputTx)>)
    requires
        clients.len() > 0,
    ensures
        ids(clients) == ids(clients.drop_last()).push(clients.last().0),
        ids(clients).no_duplicates() ==> ids(clients.drop_last()).no_duplicates() && !ids(
            clients.drop_last(),
        ).contains(clients.last().0),
        forall|c: u64| #[trigger]
            ids(clients).contains(c) <==> ids(clients.drop_last()).contains(c) || c
                == clients.last().0,
{
    let rest = clients.drop_last();
    assert(rest.push(clients.last()) =~= clients);
    lemma_ids_push(rest, clients.last());
    lemma_push_ids(ids(rest), clients.last().0);
}

pub(crate) proof fn lemma_push_ids(list: Seq<u64>, client: u64)
    ensures
        list.push(client).no_duplicates() <==> list.no_duplicates() && !list.contains(client),
        forall|c: u64| #[trigger] list.push(client).contains(c) <==> list.contains(c) || c
            == client,
{
    let all = list.push(client);
    assert forall|c: u64| #[trigger] all.contains(c) <==> list.contains(c) || c == client by {
        if all.contains(c) {
            let k = choose|k: int| 0 <= k < all.len() && all[k] == c;
            if k < list.len() {
                assert(list[k] == c);
            }
        }
        if list.contains(c) {
            let k = choose|k: int| 0 <= k < list.len() && list[k] == c;
            assert(all[k] == c);
        }
        assert(all[list.len() as int] == client);
    }
    if all.no_duplicates() {
        assert forall|i: int, j: int|
            0 <= i < list.len() && 0 <= j < list.len() && i != j implies list[i] != list[j] by {
            assert(all[i] != all[j]);
        }
        if list.contains(client) {
            let k = choose|k: int| 0 <= k < list.len() && list[k] == client;
            assert(all[k] != all[list.len() as int]);
        }
    }
    if list.no_duplicates() && !list.contains(client) {
        assert forall|i: int, j: int|
            0 <= i < all.len() && 0 <= j < all.len() && i != j implies all[i] != all[j] by {
            if i < list.len() {
                assert(list.contains(list[i]));
            }
            if j < list.len() {
                assert(list.contains(list[j]));
            }
        }
    }
}

pub(crate) proof fn lemma_reached(clients: Seq<(u64, ClientOutputTx)>, a: Seq<bool>, b: Seq<bool>)
    requires
        forall|k: int| 0 <= k < clients.len() ==> #[trigger] a[k] == b[k],
    ensures
        reached(clients, a) == reached(clients, b),
        missed(clients, a) == missed(clients, b),
        reached(clients, a).len() + missed(clients, a).len() == clients.len(),
        forall|c: u64| #[trigger]
            ids(reached(clients, a)).contains(c) ==> ids(clients).contains(c),
        ids(clients).no_duplicates() ==> ids(reached(clients, a)).no_duplicates(),
    decreases clients.len(),
{
    if clients.len() > 0 {
        let rest = clients.drop_last();
        lemma_reached(rest, a, b);
        assert(a[clients.len() - 1] == b[clients.len() - 1]);
        lemma_ids_drop_last(clients);
        if a[clients.len() - 1] {
            lemma_ids_push(reached(rest, a), clients.last());
            lemma_push_ids(ids(reached(rest, a)), clients.last().0);
        }
    }
}

/// Attached clients and their mailboxes.
pub open spec fn attached_clients(clients: Seq<(ClientId, Mailbox)>) -> Seq<
    (u64, ClientOutputTx),
> {
    clients.map_values(|client: (ClientId, Mailbox)| (client.0@, client.1.sender()))
}

/// A mailbox, where there is one.
pub open spec fn opt_mailbox(mailbox: Option<Mailbox>) -> Option<ClientOutputTx> {
    match mailbox {
        Some(mailbox) => Some(mailbox.sender()),
        None => None,
    }
}

/// Runtime session actor.
pub struct SessionActor {
    mode: SessionMode,
    exit_policy: ExitPolicy,
    reader_generation: u64,
    terminal: Option<Mailbox>,
    clients: Vec<(ClientId, Mailbox)>,
    browser_controller: Option<ClientId>,
    lease_owner: InputLeaseOwner,
    lease_epoch: u64,
    child_exited: bool,
    current_size: TerminalSize,
    replay: VecDeque<Bytes>,
    replay_bytes: usize,
    outbox: Outbox,
}

impl View for SessionActor {
    type V = ActorView;

    closed spec fn view(&self) -> ActorView {
        ActorView {
            mode: self.mode,
            exit_policy: self.exit_policy,
            generation: self.reader_generation,
            terminal: opt_mailbox(self.terminal),
            clients: attached_clients(self.clients@),
            controller: match self.browser_controller {
                Some(client) => Some(client@),
                None => None,
            },
            owner: self.lease_owner,
            epoch: self.lease_epoch,
            child_exited: self.child_exited,
            size: self.current_size,
            replay: chunk_bytes(self.replay@),
            log: self.outbox@,
        }
    }
}

impl SessionActor {
    /// The actor is in a valid state, has counted the retained output and serves the
    /// mailboxes of who is attached.
    pub closed spec fn wf(&self) -> bool {
        &&& self@.valid()
        &&& self.replay_bytes == total_len(self@.replay)
        &&& self.serves_attached()
    }

    /// Tells whether the actor serves a mailbox.
    pub closed spec fn serves(&self, mailbox: Mailbox) -> bool {
        mailbox.owner() == self.outbox.id()
    }

    spec fn serves_attached(&self) -> bool {
        &&& self.terminal matches Some(mailbox) ==> self.serves(mailbox)
        &&& self.serves_all(self.clients@)
    }

    /// Tells whether the actor serves the mailboxes of clients.
    pub open spec fn serves_all(&self, clients: Seq<(ClientId, Mailbox)>) -> bool {
        forall|i: int| 0 <= i < clients.len() ==> self.serves((#[trigger] clients[i]).1)
    }

    fn has_client(&self, client_id: ClientId) -> (r: bool)
        ensures
            r == self@.attached(client_id@),
    {
        let mut i: usize = 0;
        while i < self.clients.len()
            invariant
                i <= self.clients@.len(),
                forall|k: int| 0 <= k < i ==> #[trigger] ids(self@.clients)[k] != client_id@,
            decreases self.clients@.len() - i,
        {
            if self.clients[i].0.same(client_id) {
                proof {
                    assert(ids(self@.clients)[i as int] == client_id@);
                }
                return true;
            }
            i += 1;
        }
        false
    }

    /// Sends `message` to everyone attached and detaches who cannot be reached.
    /// The mailboxes of the detached clients are returned.
    fn broadcast(&mut self, message: &ClientOutput, with_terminal: bool) -> (lost: Vec<
        (ClientId, Mailbox),
    >)
        requires
            old(self).wf(),
        ensures
            final(self).wf(),
            final(self)@ == old(self)@.broadcast(
                message@,
                with_terminal,
                results(old(self)@.log, final(self)@.log),
            ),
            final(self)@.log.len() == old(self)@.log.len() + old(self)@.recipients(
                with_terminal,
            ).len(),
            attached_clients(lost@) == old(self)@.lost(
                with_terminal,
                results(old(self)@.log, final(self)@.log),
            ),
            final(self).serves_all(lost@),
    {
        let ghost start = self@;
        let ghost asked = with_terminal && start.terminal is Some;
        let ghost boxes = start.recipients(with_terminal);
        let mut answers: Vec<bool> = Vec::new();
        if with_terminal {
            match &self.terminal {
                Some(output) => {
                    let delivered = self.outbox.post(output, message.clone());
                    answers.push(delivered);
                },
                None => {},
            }
        }
        proof {
            let part = boxes.take(answers@.len() as int);
            assert(self@.log =~= start.log + to_each(part, message@, answers@));
        }
        let mut i: usize = 0;
        while i < self.clients.len()
            invariant
                i <= self.clients@.len(),
                boxes == start.recipients(with_terminal),
                asked == (with_terminal && start.terminal is Some),
                self.serves_attached(),
                answers@.len() == i + (if asked {
                    1int
                } else {
                    0
                }),
                self@ == (ActorView { log: self@.log, ..start }),
                self@.log == start.log + to_each(
                    boxes.take(answers@.len() as int),
                    message@,
                    answers@,
                ),
                self.replay_bytes == old(self).replay_bytes,
            decreases self.clients@.len() - i,
        {
            let ghost given = answers@;
            let delivered = self.outbox.post(&self.clients[i].1, message.clone());
            answers.push(delivered);
            proof {
                let n = given.len() as int;
                assert(start.clients[i as int] == attached_clients(self.clients@)[i as int]);
                assert(boxes[n] == self.clients@[i as int].1.sender());
                assert(self@.log =~= start.log + to_each(boxes.take(n + 1), message@, answers@));
            }
            i += 1;
        }
        proof {
            assert(boxes.take(answers@.len() as int) =~= boxes);
            assert(results(start.log, self@.log) =~= answers@);
        }
        self.settle_broadcast(with_terminal, &answers)
    }

    /// Detaches who did not take a message that everyone attached was sent: the mailboxes
    /// gave these `answers`, that of the terminal first. The mailboxes of the detached
    /// clients are returned.
    pub fn settle_broadcast(&mut self, with_terminal: bool, answers: &Vec<bool>) -> (lost: Vec<
        (ClientId, Mailbox),
    >)
        requires
            old(self).wf(),
            answers@.len() == old(self)@.recipients(with_terminal).len(),
        ensures
            final(self).wf(),
            final(self)@ == old(self)@.settled(with_terminal, answers@),
            attached_clients(lost@) == old(self)@.lost(with_terminal, answers@),
            final(self).serves_all(lost@),
    {
        let ghost start = self@;
        let ghost clients0 = self@.clients;
        let mut lost: Vec<(ClientId, Mailbox)> = Vec::new();
        let total: usize = answers.len();
        let mut from: usize = 0;
        if with_terminal && self.terminal.is_some() {
            if !answers[0] {
                self.terminal = None;
            }
            from = 1;
        }
        let ghost part = answers@.skip(from as int);
        let ghost terminal = self@.terminal;
        let mut done: usize = 0;
        let mut i: usize = 0;
        proof {
            assert(clients0.take(0) =~= seq![]);
            assert(clients0.skip(0) =~= clients0);
            assert(attached_clients(lost@) =~= seq![]);
        }
        while i < self.clients.len()
            invariant
                done <= clients0.len(),
                done <= total,
                from <= 1,
                part == answers@.skip(from as int),
                from + clients0.len() == total,
                total == answers@.len(),
                i == reached(clients0.take(done as int), part).len(),
                self@ == (ActorView {
                    terminal,
                    clients: reached(clients0.take(done as int), part) + clients0.skip(
                        done as int,
                    ),
                    ..start
                }),
                attached_clients(lost@) == missed(clients0.take(done as int), part),
                self.serves_attached(),
                self.serves_all(lost@),
                self.replay_bytes == old(self).replay_bytes,
            decreases clients0.len() - done,
        {
            let ghost client = clients0[done as int];
            proof {
                assert(self@.clients.len() == self.clients@.len());
                assert(done < clients0.len());
                assert(self@.clients[i as int] == clients0.skip(done as int)[0]);
                let more = clients0.take(done as int + 1);
                assert(more.drop_last() =~= clients0.take(done as int));
                assert(more.last() == client);
                assert(part[done as int] == answers@[from + done]);
            }
            if answers[from + done] {
                i += 1;
            } else {
                let ghost list = self.clients@;
                let removed = self.clients.remove(i);
                proof {
                    assert(attached_clients(self.clients@) =~= attached_clients(list).remove(i as int));
                }
                let ghost kept = lost@;
                lost.push(removed);
                proof {
                    assert(attached_clients(lost@) =~= attached_clients(kept).push(client));
                }
            }
            proof {
                assert(self@.clients =~= reached(clients0.take(done as int + 1), part)
                    + clients0.skip(done as int + 1));
            }
            done += 1;
        }
        proof {
            assert(self@.clients.len() == self.clients@.len());
            assert(clients0.skip(done as int).len() == 0);
            assert(clients0.take(done as int) =~= clients0);
            assert(answers@.skip(0) =~= answers@);
            assert(self@.clients =~= reached(clients0, part));
            lemma_reached(clients0, part, part);
        }
        match self.browser_controller {
            Some(client) => {
                if !self.has_client(client) {
                    self.browser_controller = None;
                }
            },
            None => {},
        }
        lost
    }
}

proof fn lemma_without_absent(clients: Seq<(u64, ClientOutputTx)>, client: u64)
    requires
        !ids(clients).contains(client),
    ensures
        without(clients, client) == clients,
        mailbox_of(clients, client) is None,
    decreases clients.len(),
{
    if clients.len() > 0 {
        let rest = clients.drop_last();
        lemma_ids_drop_last(clients);
        lemma_without_absent(rest, client);
        assert(rest.push(clients.last()) =~= clients);
    } else {
        assert(clients =~= seq![]);
    }
}

proof fn lemma_without_at(clients: Seq<(u64, ClientOutputTx)>, i: int)
    requires
        ids(clients).no_duplicates(),
        0 <= i < clients.len(),
    ensures
        without(clients, clients[i].0) == clients.remove(i),
        mailbox_of(clients, clients[i].0) == Some(clients[i].1),
    decreases clients.len(),
{
    let client = clients[i].0;
    let rest = clients.drop_last();
    lemma_ids_drop_last(clients);
    if i == clients.len() - 1 {
        lemma_without_absent(rest, client);
        assert(clients.remove(i) =~= rest);
    } else {
        lemma_without_at(rest, i);
        assert(ids(rest)[i] == client);
        assert(rest.remove(i).push(clients.last()) =~= clients.remove(i));
    }
}

pub(crate) proof fn lemma_without(clients: Seq<(u64, ClientOutputTx)>, client: u64)
    ensures
        ids(clients).no_duplicates() ==> ids(without(clients, client)).no_duplicates(),
        forall|c: u64| #[trigger]
            ids(without(clients, client)).contains(c) <==> ids(clients).contains(c) && c
                != client,
    decreases clients.len(),
{
    if clients.len() > 0 {
        let rest = clients.drop_last();
        lemma_without(rest, client);
        lemma_ids_drop_last(clients);
        if clients.last().0 != client {
            lemma_ids_push(without(rest, client), clients.last());
            lemma_push_ids(ids(without(rest, client)), clients.last().0);
        }
        assert forall|c: u64| #[trigger]
            ids(without(clients, client)).contains(c) <==> ids(clients).contains(c) && c
                != client by {
            assert(ids(without(rest, client)).contains(c) <==> ids(rest).contains(c) && c
                != client);
            assert(ids(clients).contains(c) <==> ids(rest).contains(c) || c == clients.last().0);
        }
    }
}

pub(crate) proof fn lemma_mailbox(clients: Seq<(u64, ClientOutputTx)>, client: u64)
    ensures
        ids(clients).contains(client) <==> mailbox_of(clients, client) is Some,
        mailbox_of(clients, client) matches Some(mailbox) ==> clients.contains(
            (client, mailbox),
        ),
    decreases clients.len(),
{
    if clients.len() > 0 {
        let rest = clients.drop_last();
        lemma_mailbox(rest, client);
        lemma_ids_drop_last(clients);
        if clients.last().0 == client {
            assert(clients[clients.len() - 1] == (client, clients.last().1));
        } else if let Some(mailbox) = mailbox_of(rest, client) {
            let j = choose|j: int| 0 <= j < rest.len() && rest[j] == (client, mailbox);
            assert(clients[j] == (client, mailbox));
        }
    }
}

pub(crate) proof fn lemma_mailbox_without(
    clients: Seq<(u64, ClientOutputTx)>,
    client: u64,
    other: u64,
)
    requires
        other != client,
    ensures
        mailbox_of(without(clients, client), other) == mailbox_of(clients, other),
    decreases clients.len(),
{
    if clients.len() > 0 {
        let rest = clients.drop_last();
        lemma_mailbox_without(rest, client, other);
        if clients.last().0 != client {
            assert(without(clients, client).drop_last() =~= without(rest, client));
        }
    }
}

impl SessionActor {
    /// Creates the actor of a terminal process that was just started.
    pub fn new(config: RuntimeConfig) -> (r: Self)
        ensures
            r.wf(),
            r@ == initial_state(config),
    {
        let r = SessionActor {
            mode: config.mode,
            exit_policy: config.exit_policy,
            reader_generation: 0,
            terminal: None,
            clients: Vec::new(),
            browser_controller: None,
            lease_owner: InputLeaseOwner::Terminal,
            lease_epoch: 0,
            child_exited: false,
            current_size: config.initial_size,
            replay: VecDeque::new(),
            replay_bytes: 0,
            outbox: Outbox::new(),
        };
        proof {
            assert(r@.replay =~= seq![]);
            assert(r@.clients =~= seq![]);
        }
        r
    }

    /// Detaches a browser client and returns its mailbox. The controller stays
    /// as it is.
    fn take_client(&mut self, client_id: ClientId) -> (r: Option<Mailbox>)
        requires
            ids(old(self)@.clients).no_duplicates(),
            old(self).serves_attached(),
        ensures
            final(self).serves_attached(),
            r matches Some(mailbox) ==> final(self).serves(mailbox),
            final(self).outbox == old(self).outbox,
            final(self)@ == (ActorView {
                clients: without(old(self)@.clients, client_id@),
                ..old(self)@
            }),
            opt_mailbox(r) == mailbox_of(old(self)@.clients, client_id@),
            final(self).replay_bytes == old(self).replay_bytes,
    {
        let mut i: usize = 0;
        while i < self.clients.len()
            invariant
                *self == *old(self),
                i <= self.clients@.len(),
                ids(self@.clients).no_duplicates(),
                self.serves_attached(),
                forall|k: int| 0 <= k < i ==> #[trigger] ids(self@.clients)[k] != client_id@,
            decreases self.clients@.len() - i,
        {
            if self.clients[i].0.same(client_id) {
                let ghost list = self.clients@;
                let (_, output) = self.clients.remove(i);
                proof {
                    assert(attached_clients(self.clients@) =~= attached_clients(list).remove(i as int));
                    lemma_without_at(attached_clients(list), i as int);
                    assert(attached_clients(list)[i as int].0 == client_id@);
                }
                return Some(output);
            }
            i += 1;
        }
        proof {
            lemma_without_absent(self@.clients, client_id@);
        }
        None
    }

    /// Detaches a browser client.
    pub fn detach_client(&mut self, client_id: ClientId)
        requires
            old(self).wf(),
        ensures
            final(self).wf(),
            final(self)@ == old(self)@.detach(client_id@),
    {
        let _ = self.take_client(client_id);
        proof {
            lemma_without(old(self)@.clients, client_id@);
        }
        match self.browser_controller {
            Some(controller) => {
                if controller.same(client_id) {
                    self.browser_controller = None;
                }
            },
            None => {},
        }
    }

    fn current_lease_message(&self) -> (r: ClientOutput)
        ensures
            r@ == self@.lease_message(),
    {
        ClientOutput::Control(
            ServerControlMessage::LeaseChanged {
                owner: self.lease_owner.protocol_owner(),
                epoch: self.lease_epoch,
            },
        )
    }

    fn current_size_message(&self) -> (r: ClientOutput)
        ensures
            r@ == self@.size_message(),
    {
        ClientOutput::Control(ServerControlMessage::SizeChanged { size: self.current_size })
    }

    /// Gives the input lease to `owner` and tells everyone, unless it has it.
    fn claim(&mut self, owner: InputLeaseOwner)
        requires
            old(self).wf(),
        ensures
            final(self).wf(),
            final(self)@ == old(self)@.claim(owner, results(old(self)@.log, final(self)@.log)),
            old(self)@.log.len() <= final(self)@.log.len(),
    {
        if self.lease_owner != owner {
            self.lease_owner = owner;
            self.lease_epoch = self.lease_epoch.saturating_add(1);
            let message = self.current_lease_message();
            let _ = self.broadcast(&message, true);
        }
    }

    /// The terminal process has exited. Its end closes the session or is
    /// reported to everyone attached.
    pub fn handle_child_exit(&mut self) -> (r: Option<ShutdownReason>)
        requires
            old(self).wf(),
        ensures
            final(self).wf(),
            (final(self)@, reason_view(r)) == old(self)@.child_exit(
                results(old(self)@.log, final(self)@.log),
            ),
    {
        if self.child_exited {
            return None;
        }
        match self.exit_policy {
            ExitPolicy::End => Some(ShutdownReason::ChildExit),
            ExitPolicy::Hold => {
                self.child_exited = true;
                let message = ClientOutput::Control(
                    ServerControlMessage::ProcessExited {
                        message: SafeMessage::from_static("The terminal process exited."),
                    },
                );
                let _ = self.broadcast(&message, true);
                None
            },
        }
    }
}

/// The contents of a shutdown reason, where there is one.
pub open spec fn reason_view(reason: Option<ShutdownReason>) -> Option<ReasonView> {
    match reason {
        Some(reason) => Some(reason@),
        None => None,
    }
}

/// The session name that clients are told.
pub open spec fn session_display_name(mode: SessionMode) -> Seq<char> {
    match mode {
        SessionMode::NewShell { .. } => "shell"@,
        SessionMode::Tmux { session } => session@,
    }
}

/// The state of an actor that was just created.
pub open spec fn initial_state(config: RuntimeConfig) -> ActorView {
    ActorView {
        mode: config.mode,
        exit_policy: config.exit_policy,
        generation: 0,
        terminal: None,
        clients: seq![],
        controller: None,
        owner: InputLeaseOwner::Terminal,
        epoch: 0,
        child_exited: false,
        size: config.initial_size,
        replay: seq![],
        log: seq![],
    }
}

/// In every state an actor has, no client is attached twice, the controller is
/// attached, and the retained output is within its bounds.
pub proof fn law_actor_state_is_valid(actor: SessionActor)
    requires
        actor.wf(),
    ensures
        actor@.valid(),
{
}

/// Returns the session name that clients are told.
pub fn display_session_name(mode: &SessionMode) -> (r: Result<SessionName, ProtocolError>)
    ensures
        r matches Ok(name) && name@ == session_display_name(*mode),
{
    match mode {
        SessionMode::NewShell { .. } => {
            proof {
                reveal_strlit("shell");
                assert(crate::protocol::valid_session_name("shell"@));
            }
            SessionName::new("shell")
        },
        SessionMode::Tmux { session } => Ok(session.clone()),
    }
}

impl SessionActor {
    /// The retained output as messages.
    fn replay_messages(&self) -> (r: Vec<ClientOutput>)
        ensures
            output_views(r@) == self@.replay.map_values(|bytes: Seq<u8>| OutputView::Bytes(bytes)),
    {
        let mut messages: Vec<ClientOutput> = Vec::new();
        let mut i: usize = 0;
        while i < self.replay.len()
            invariant
                i <= self.replay@.len(),
                messages@.len() == i,
                forall|k: int|
                    0 <= k < i ==> (#[trigger] messages@[k])@ == OutputView::Bytes(
                        crate::octets::octets(self.replay@[k]),
                    ),
            decreases self.replay@.len() - i,
        {
            messages.push(ClientOutput::Bytes(self.replay[i].clone()));
            i += 1;
        }
        proof {
            assert(output_views(messages@) =~= self@.replay.map_values(
                |bytes: Seq<u8>| OutputView::Bytes(bytes),
            ));
        }
        messages
    }

    /// What a browser client is sent when it attaches.
    fn attach_messages(&self) -> (r: Vec<ClientOutput>)
        ensures
            output_views(r@) == self@.attach_messages(),
    {
        let mut messages: Vec<ClientOutput> = Vec::new();
        match display_session_name(&self.mode) {
            Ok(session) => messages.push(
                ClientOutput::Control(ServerControlMessage::Ready { session }),
            ),
            Err(_) => messages.push(
                ClientOutput::Control(
                    ServerControlMessage::Error {
                        code: ErrorCode::Runtime,
                        message: SafeMessage::from_static("runtime warning"),
                    },
                ),
            ),
        }
        messages.push(self.current_size_message());
        if self.should_send_lease_to_browser() {
            messages.push(self.current_lease_message());
        }
        messages.push(ClientOutput::Control(ServerControlMessage::ReplayStarted));
        let ghost head = messages@;
        let mut replay = self.replay_messages();
        let ghost body = replay@;
        messages.append(&mut replay);
        messages.push(ClientOutput::Control(ServerControlMessage::ReplayFinished));
        proof {
            let views = output_views(messages@);
            assert(output_views(messages@) =~= output_views(head) + output_views(body) + seq![
                OutputView::Control(ServerMessageView::ReplayFinished),
            ]);
            assert(output_views(head) =~= seq![
                OutputView::Control(
                    ServerMessageView::Ready { session: session_display_name(self@.mode) },
                ),
                self@.size_message(),
            ] + (if self@.terminal is Some || self@.owner is Browser {
                seq![self@.lease_message()]
            } else {
                seq![]
            }) + seq![OutputView::Control(ServerMessageView::ReplayStarted)]);
        }
        messages
    }

    fn should_send_lease_to_browser(&self) -> (r: bool)
        ensures
            r == (self@.terminal is Some || self@.owner is Browser),
    {
        self.terminal.is_some() || matches!(self.lease_owner, InputLeaseOwner::Browser(_))
    }

    fn should_apply_browser_resize(&self, client_id: ClientId) -> (r: bool)
        ensures
            r == (self@.terminal is None && self@.controller == Some(client_id@)),
    {
        self.terminal.is_none() && self.controls(client_id)
    }

    fn controls(&self, client_id: ClientId) -> (r: bool)
        ensures
            r == (self@.controller == Some(client_id@)),
    {
        match self.browser_controller {
            Some(controller) => controller.same(client_id),
            None => false,
        }
    }

    /// Attaches a browser client, which takes the controller role from the one
    /// before it. A client whose mailbox refuses a message is not attached.
    pub fn attach_client(&mut self, client_id: ClientId, output: ClientOutputTx)
        requires
            old(self).wf(),
        ensures
            final(self).wf(),
            final(self)@ == old(self)@.attach_client(
                client_id@,
                output,
                results(old(self)@.log, final(self)@.log),
            ),
    {
        let ghost start = self@;
        match self.browser_controller {
            Some(controller) => {
                if !controller.same(client_id) {
                    match self.take_client(controller) {
                        Some(previous) => {
                            self.browser_controller = None;
                            let _ = self.outbox.post(
                                &previous,
                                ClientOutput::Closed(ShutdownReason::ControllerReplaced),
                            );
                        },
                        None => {},
                    }
                }
            },
            None => {},
        }
        let ghost base = self@;
        proof {
            if let Some(previous) = start.controller {
                lemma_without(start.clients, previous);
                lemma_mailbox(start.clients, previous);
            }
        }
        let mailbox = self.outbox.open(output);
        let messages = self.attach_messages();
        let all = post_in_turn(&mut self.outbox, &mailbox, &messages);
        self.settle_attach(client_id, mailbox, all);
        proof {
            let all_results = results(start.log, self@.log);
            let skipped = base.log.len() - start.log.len();
            assert(all_results.skip(skipped) =~= results(base.log, self@.log));
            assert(base =~= start.hand_over(client_id@, all_results));
        }
    }

    /// Attaches a browser client whose mailbox took `all` of what the client is told, and
    /// gives it control. Where the mailbox refused some of it, nobody has control.
    pub(crate) fn settle_attach(&mut self, client_id: ClientId, mailbox: Mailbox, all: bool)
        requires
            old(self).wf(),
            old(self).serves(mailbox),
        ensures
            final(self).wf(),
            final(self)@ == old(self)@.attach_settled(client_id@, mailbox.sender(), all),
    {
        if !all {
            self.browser_controller = None;
            return;
        }
        proof {
            lemma_without(self@.clients, client_id@);
        }
        let _ = self.take_client(client_id);
        let ghost list = self.clients@;
        self.clients.push((client_id, mailbox));
        proof {
            let others = attached_clients(list);
            let entry = (client_id@, mailbox.sender());
            assert(attached_clients(self.clients@) =~= others.push(entry));
            lemma_ids_push(others, entry);
            lemma_push_ids(ids(others), client_id@);
        }
        self.browser_controller = Some(client_id);
    }

    /// Keeps the local terminal frontend attached where its mailbox took `all` of the
    /// retained output.
    pub fn settle_terminal(&mut self, all: bool)
        requires
            old(self).wf(),
        ensures
            final(self).wf(),
            final(self)@ == old(self)@.terminal_settled(all),
    {
        if !all {
            self.terminal = None;
        }
    }
}

impl SessionActor {
    /// Attaches the local terminal frontend, which takes the input lease and is
    /// sent the retained output.
    pub fn attach_terminal(&mut self, output: ClientOutputTx)
        requires
            old(self).wf(),
        ensures
            final(self).wf(),
            final(self)@ == old(self)@.attach_terminal(
                output,
                results(old(self)@.log, final(self)@.log),
            ),
    {
        let ghost start = self@;
        self.terminal = Some(self.outbox.open(output));
        let ghost base = self@;
        if self.lease_owner == InputLeaseOwner::Terminal {
            let message = self.current_lease_message();
            let _ = self.broadcast(&message, true);
        } else {
            self.claim(InputLeaseOwner::Terminal);
        }
        let ghost told = self@;
        let messages = self.replay_messages();
        let all = match &self.terminal {
            Some(output) => post_in_turn(&mut self.outbox, output, &messages),
            None => true,
        };
        self.settle_terminal(all);
        proof {
            let all_results = results(start.log, self@.log);
            let part = results(base.log, told.log);
            let skipped = told.log.len() - start.log.len();
            assert(all_results.skip(skipped) =~= results(told.log, self@.log));
            lemma_broadcast_prefix(base, base.lease_message(), true, part, all_results);
            let claimed = ActorView {
                owner: InputLeaseOwner::Terminal,
                epoch: told.epoch,
                ..base
            };
            lemma_broadcast_prefix(claimed, claimed.lease_message(), true, part, all_results);
        }
    }

    /// The terminal process wrote `bytes`: they are retained and sent to everyone
    /// attached. A client that cannot keep up is closed.
    fn handle_output(&mut self, bytes: Bytes)
        requires
            old(self).wf(),
        ensures
            final(self).wf(),
            final(self)@ == old(self)@.output(
                crate::octets::octets(bytes),
                results(old(self)@.log, final(self)@.log),
            ),
    {
        let ghost start = self@;
        let ghost contents = crate::octets::octets(bytes);
        let message = ClientOutput::Bytes(bytes.clone());
        record_replay_chunk(&mut self.replay, &mut self.replay_bytes, bytes);
        let ghost kept = self@;
        let lost = self.broadcast(&message, true);
        let ghost sent = self@;
        let ghost gone = attached_clients(lost@);
        let mut i: usize = 0;
        proof {
            assert(gone.take(0) =~= seq![]);
            assert(close_notices(gone.take(0)).len() == 0);
        }
        while i < lost.len()
            invariant
                i <= lost@.len(),
                gone == attached_clients(lost@),
                self.wf(),
                self.serves_all(lost@),
                self@ == (ActorView { log: self@.log, ..sent }),
                self@.log.len() == sent.log.len() + close_notices(gone.take(i as int)).len(),
                self@.log.take(sent.log.len() as int) == sent.log,
                forall|k: int|
                    #![trigger self@.log[sent.log.len() + k]]
                    0 <= k < close_notices(gone.take(i as int)).len() ==> {
                        let notice = close_notices(gone.take(i as int))[k];
                        let noted = self@.log[sent.log.len() + k];
                        noted.mailbox == notice.0 && noted.message == notice.1
                    },
            decreases lost@.len() - i,
        {
            let ghost before = self@.log;
            let ghost notices = close_notices(gone.take(i as int));
            let ghost client = gone[i as int];
            let warning = ClientOutput::Control(
                ServerControlMessage::Warning {
                    code: WarningCode::ClientBackpressure,
                    message: SafeMessage::from_static("browser client could not keep up"),
                },
            );
            let _ = self.outbox.post(&lost[i].1, warning);
            let _ = self.outbox.post(
                &lost[i].1,
                ClientOutput::Closed(ShutdownReason::ClientDisconnect),
            );
            i += 1;
            proof {
                let more = close_notices(gone.take(i as int));
                assert(gone.take(i as int).drop_last() =~= gone.take(i - 1));
                assert(gone.take(i as int).last() == client);
                assert(self@.log.take(sent.log.len() as int) =~= before.take(
                    sent.log.len() as int,
                ));
                assert forall|k: int| 0 <= k < more.len() implies ({
                    let notice = more[k];
                    let noted = #[trigger] self@.log[sent.log.len() + k];
                    noted.mailbox == notice.0 && noted.message == notice.1
                }) by {
                    if k < notices.len() {
                        assert(more[k] == notices[k]);
                        assert(self@.log[sent.log.len() + k] == before[sent.log.len() + k]);
                    }
                }
            }
        }
        proof {
            let all_results = results(start.log, self@.log);
            let part = results(kept.log, sent.log);
            let notices = close_notices(gone);
            let from = start.recipients(true).len();
            assert(gone.take(i as int) =~= gone);
            lemma_broadcast_prefix(kept, OutputView::Bytes(contents), true, part, all_results);
            assert(kept.recipients(true) =~= start.recipients(true));
            assert(self@.log =~= sent.log + Seq::new(
                notices.len(),
                |k: int|
                    Delivery {
                        mailbox: notices[k].0,
                        message: notices[k].1,
                        delivered: all_results[from + k],
                    },
            )) by {
                assert forall|k: int| 0 <= k < self@.log.len() implies self@.log[k] == (sent.log
                    + Seq::new(
                    notices.len(),
                    |k: int|
                        Delivery {
                            mailbox: notices[k].0,
                            message: notices[k].1,
                            delivered: all_results[from + k],
                        },
                ))[k] by {
                    if k < sent.log.len() {
                        assert(self@.log[k] == self@.log.take(sent.log.len() as int)[k]);
                    } else {
                        let j = k - sent.log.len();
                        assert(self@.log[sent.log.len() + j] == self@.log[k]);
                        assert(all_results[from + j] == self@.log[start.log.len() + (from
                            + j)].delivered);
                    }
                }
            }
            assert(self@ =~= start.output(contents, all_results));
        }
    }

    /// Tells everyone attached that the session closed, and detaches them.
    pub fn close_clients(&mut self, reason: &ShutdownReason)
        requires
            old(self).wf(),
        ensures
            final(self).wf(),
            final(self)@ == old(self)@.close(
                reason@,
                results(old(self)@.log, final(self)@.log),
            ),
    {
        let ghost start = self@;
        let message = ClientOutput::Closed(reason.clone());
        let _ = self.broadcast(&message, true);
        self.terminal = None;
        self.clients.clear();
        self.browser_controller = None;
        proof {
            assert(self@.clients =~= seq![]);
            assert(self@ =~= start.close(reason@, results(start.log, self@.log)));
        }
    }
}

proof fn lemma_broadcast_prefix(
    state: ActorView,
    message: OutputView,
    with_terminal: bool,
    part: Seq<bool>,
    whole: Seq<bool>,
)
    requires
        part.len() <= whole.len(),
        forall|k: int| 0 <= k < part.len() ==> #[trigger] part[k] == whole[k],
        part.len() == state.recipients(with_terminal).len(),
    ensures
        state.broadcast(message, with_terminal, part) == state.broadcast(
            message,
            with_terminal,
            whole,
        ),
        state.lost(with_terminal, part) == state.lost(with_terminal, whole),
{
    let recipients = state.recipients(with_terminal);
    if with_terminal && state.terminal is Some {
        assert forall|k: int| 0 <= k < state.clients.len() implies #[trigger] part.skip(1)[k]
            == whole.skip(1)[k] by {
            assert(part[k + 1] == whole[k + 1]);
        }
        lemma_reached(state.clients, part.skip(1), whole.skip(1));
        assert(part[0] == whole[0]);
    } else {
        lemma_reached(state.clients, part, whole);
    }
    assert(to_each(recipients, message, part) =~= to_each(recipients, message, whole));
}

/// What the terminal process is found to be doing.
#[derive(Debug)]
pub enum ChildStatus {
    /// It runs.
    Running,
    /// It has exited.
    Exited,
    /// It could not be inspected.
    Failed(String),
}

/// Event of a terminal process.
#[derive(Debug)]
pub struct PtyEvent {
    /// Number of the terminal process.
    pub generation: u64,
    /// What happened.
    pub kind: PtyEventKind,
}

/// What happened to a terminal process.
#[derive(Debug)]
pub enum PtyEventKind {
    /// It wrote output.
    Output(Bytes),
    /// Its output could not be read.
    ReaderError(String),
    /// Its output ended.
    Eof,
}

/// What a read of a terminal process gives: the bytes that were read into the buffer,
/// the end of the output, or a failure.
pub open spec fn is_read_event(
    read: Result<usize, String>,
    buffer: Seq<u8>,
    kind: PtyEventKind,
) -> bool {
    match read {
        Ok(count) => if count == 0 {
            kind is Eof
        } else if count <= buffer.len() {
            kind matches PtyEventKind::Output(bytes) && crate::octets::octets(bytes)
                == buffer.take(count as int)
        } else {
            kind matches PtyEventKind::ReaderError(error) && error@ == "invalid pty read size"@
        },
        Err(message) => kind matches PtyEventKind::ReaderError(error) && error@ == message@,
    }
}

/// Returns the event of a read of a terminal process into `buffer`, and whether it is the
/// last one.
pub fn read_event(read: Result<usize, String>, buffer: &[u8]) -> (r: (PtyEventKind, bool))
    ensures
        is_read_event(read, buffer@, r.0),
        r.1 == !(r.0 is Output),
{
    match read {
        Ok(count) => {
            if count == 0 {
                return (PtyEventKind::Eof, true);
            }
            if count > buffer.len() {
                return (PtyEventKind::ReaderError("invalid pty read size".to_owned()), true);
            }
            let chunk = vstd::slice::slice_subrange(buffer, 0, count);
            let bytes = crate::octets::bytes_from_vec(vstd::slice::slice_to_vec(chunk));
            proof {
                assert(buffer@.subrange(0, count as int) =~= buffer@.take(count as int));
            }
            (PtyEventKind::Output(bytes), false)
        },
        Err(error) => (PtyEventKind::ReaderError(error), true),
    }
}

/// A frontend that waits for a new terminal process.
#[derive(Debug)]
pub enum PendingAttach {
    /// The local terminal frontend.
    Terminal {
        /// Bounded output mailbox.
        output: ClientOutputTx,
    },
    /// A browser client.
    Client {
        /// Client id.
        client_id: ClientId,
        /// Bounded output mailbox.
        output: ClientOutputTx,
    },
}

impl PendingAttach {
    /// Who waits.
    pub open spec fn who(self) -> Recipient {
        match self {
            PendingAttach::Terminal { .. } => Recipient::Terminal,
            PendingAttach::Client { client_id, .. } => Recipient::Client(client_id@),
        }
    }

    /// The mailbox of who waits.
    pub open spec fn mailbox(self) -> ClientOutputTx {
        match self {
            PendingAttach::Terminal { output } => output,
            PendingAttach::Client { output, .. } => output,
        }
    }
}

/// What the driver of the actor reports.
#[derive(Debug)]
#[allow(inconsistent_fields)]
pub enum ActorInput {
    /// The actor starts.
    Started,
    /// A shutdown request, where there was one.
    ShutdownPolled(Option<ShutdownReason>),
    /// An event of the terminal process, where there was one.
    PtyPolled(Option<PtyEvent>),
    /// What the terminal process is doing.
    ChildPolled(ChildStatus),
    /// A command.
    Command(RuntimeCommand),
    /// No command was there.
    NoCommand,
    /// No command can come any more.
    CommandsClosed,
    /// The wait is over.
    Waited,
    /// An event of the terminal process came during the wait.
    WaitedForEvent(PtyEvent),
    /// No event of the terminal process can come any more.
    EventsClosed,
    /// What the terminal process is doing after its output could not be read.
    Probed {
        /// Why the output could not be read.
        error: String,
        /// Whether more events may be there.
        draining: bool,
        /// What the terminal process is doing.
        status: ChildStatus,
    },
    /// Input was written to the terminal process.
    Written(Result<(), String>),
    /// The terminal was resized.
    Resized(Result<(), String>),
    /// A new terminal process was started.
    Restarted {
        /// The frontend that waits for it.
        attach: PendingAttach,
        /// Whether it could be started.
        result: Result<(), RuntimeError>,
    },
}

/// What the actor asks of its driver.
#[derive(Debug)]
#[allow(inconsistent_fields)]
pub enum ActorRequest {
    /// Look for a shutdown request.
    PollShutdown,
    /// Look for an event of the terminal process.
    PollPty,
    /// Look at what the terminal process is doing.
    PollChild,
    /// Look for a command.
    PollCommand,
    /// Wait a moment.
    Sleep,
    /// Wait a moment for an event of the terminal process.
    WaitPty,
    /// Look at what the terminal process is doing, as its output could not be
    /// read.
    Probe {
        /// Why the output could not be read.
        error: String,
        /// Whether more events may be there.
        draining: bool,
    },
    /// Write input to the terminal process.
    Write(Bytes),
    /// Resize the terminal.
    ResizePty(TerminalSize),
    /// Start a new terminal process.
    Restart(PendingAttach),
    /// Stop.
    Stop(ShutdownReason),
}

/// The contents of an [`ActorRequest`].
pub enum RequestView {
    PollShutdown,
    PollPty,
    PollChild,
    PollCommand,
    Sleep,
    WaitPty,
    Probe { error: Seq<char>, draining: bool },
    Write(Seq<u8>),
    ResizePty(TerminalSize),
    Restart { who: Recipient, mailbox: ClientOutputTx },
    Stop(ReasonView),
}

impl View for ActorRequest {
    type V = RequestView;

    open spec fn view(&self) -> RequestView {
        match *self {
            ActorRequest::PollShutdown => RequestView::PollShutdown,
            ActorRequest::PollPty => RequestView::PollPty,
            ActorRequest::PollChild => RequestView::PollChild,
            ActorRequest::PollCommand => RequestView::PollCommand,
            ActorRequest::Sleep => RequestView::Sleep,
            ActorRequest::WaitPty => RequestView::WaitPty,
            ActorRequest::Probe { error, draining } => RequestView::Probe {
                error: error@,
                draining,
            },
            ActorRequest::Write(bytes) => RequestView::Write(crate::octets::octets(bytes)),
            ActorRequest::ResizePty(size) => RequestView::ResizePty(size),
            ActorRequest::Restart(attach) => RequestView::Restart {
                who: attach.who(),
                mailbox: attach.mailbox(),
            },
            ActorRequest::Stop(reason) => RequestView::Stop(reason@),
        }
    }
}

/// Stops for `reason`, or goes on with `next` where there is none.
pub open spec fn stop_or(reason: Option<ReasonView>, next: RequestView) -> RequestView {
    match reason {
        Some(reason) => RequestView::Stop(reason),
        None => next,
    }
}

impl ActorView {
    /// The next state and request after an event of the terminal process. Events
    /// of an earlier process are ignored.
    pub open spec fn on_event(
        self,
        event: PtyEvent,
        draining: bool,
        results: Seq<bool>,
    ) -> (ActorView, RequestView) {
        let next = if draining {
            RequestView::PollPty
        } else {
            RequestView::PollShutdown
        };
        if event.generation != self.generation {
            (self, next)
        } else {
            match event.kind {
                PtyEventKind::Output(bytes) => (
                    self.output(crate::octets::octets(bytes), results),
                    next,
                ),
                PtyEventKind::ReaderError(error) => (
                    self,
                    RequestView::Probe { error: error@, draining },
                ),
                PtyEventKind::Eof => {
                    let (state, reason) = self.child_exit(results);
                    (state, stop_or(reason, next))
                },
            }
        }
    }

    /// The next state and request after a command.
    ///
    /// Input is written only for the attached terminal and for the controlling
    /// browser client, who then owns the input lease. A browser client sets the
    /// size only where no terminal is attached.
    pub open spec fn on_command(
        self,
        command: RuntimeCommand,
        results: Seq<bool>,
    ) -> (ActorView, RequestView) {
        match command {
            RuntimeCommand::AttachTerminal { output } => if self.child_exited {
                (self, RequestView::Restart { who: Recipient::Terminal, mailbox: output })
            } else {
                (self.attach_terminal(output, results), RequestView::PollShutdown)
            },
            RuntimeCommand::AttachClient { client_id, output } => if self.child_exited {
                (
                    self,
                    RequestView::Restart { who: Recipient::Client(client_id@), mailbox: output },
                )
            } else {
                (self.attach_client(client_id@, output, results), RequestView::PollShutdown)
            },
            RuntimeCommand::DetachClient { client_id } => (
                self.detach(client_id@),
                RequestView::PollShutdown,
            ),
            RuntimeCommand::AcquireControl { client_id } => if self.controller == Some(client_id@)
                && !self.child_exited {
                (
                    self.claim(InputLeaseOwner::Browser(client_id), results),
                    RequestView::PollShutdown,
                )
            } else {
                (self, RequestView::PollShutdown)
            },
            RuntimeCommand::TerminalInput { bytes } => if self.terminal is Some && !self.child_exited {
                (
                    self.claim(InputLeaseOwner::Terminal, results),
                    RequestView::Write(crate::octets::octets(bytes)),
                )
            } else {
                (self, RequestView::PollShutdown)
            },
            RuntimeCommand::Input { client_id, bytes } => if self.controller == Some(client_id@)
                && !self.child_exited {
                (
                    self.claim(InputLeaseOwner::Browser(client_id), results),
                    RequestView::Write(crate::octets::octets(bytes)),
                )
            } else {
                (self, RequestView::PollShutdown)
            },
            RuntimeCommand::Resize { size } => self.on_resize(size, results),
            RuntimeCommand::BrowserResize { client_id, size } => if self.terminal is None
                && self.controller == Some(client_id@) {
                self.on_resize(size, results)
            } else {
                (self, RequestView::PollShutdown)
            },
            RuntimeCommand::Shutdown { reason } => (self, RequestView::Stop(reason@)),
        }
    }

    /// The next state and request when the terminal is to have `size`.
    pub open spec fn on_resize(self, size: TerminalSize, results: Seq<bool>) -> (
        ActorView,
        RequestView,
    ) {
        let sized = ActorView { size, ..self };
        if self.child_exited {
            (
                sized.broadcast(sized.size_message(), false, results),
                RequestView::PollShutdown,
            )
        } else {
            (sized, RequestView::ResizePty(size))
        }
    }

    /// The next state and request after the terminal process was inspected.
    pub open spec fn on_status(
        self,
        status: ChildStatus,
        reader_error: Option<Seq<char>>,
        next: RequestView,
        results: Seq<bool>,
    ) -> (ActorView, RequestView) {
        match status {
            ChildStatus::Exited => {
                let (state, reason) = self.child_exit(results);
                (state, stop_or(reason, next))
            },
            ChildStatus::Running => match reader_error {
                Some(error) => (self, RequestView::Stop(ReasonView::RuntimeError(error))),
                None => (self, next),
            },
            ChildStatus::Failed(failure) => match reader_error {
                Some(error) => (self, RequestView::Stop(ReasonView::RuntimeError(error))),
                None => (self, RequestView::Stop(ReasonView::RuntimeError(failure@))),
            },
        }
    }

    /// The next state and request after a new terminal process was to be started
    /// for a frontend.
    pub open spec fn on_restart(
        self,
        attach: PendingAttach,
        result: Result<(), RuntimeError>,
        results: Seq<bool>,
    ) -> (ActorView, RequestView) {
        match result {
            Ok(_) => match attach {
                PendingAttach::Terminal { output } => (
                    self.restart().attach_terminal(output, results),
                    RequestView::PollShutdown,
                ),
                PendingAttach::Client { client_id, output } => (
                    self.restart().attach_client(client_id@, output, results),
                    RequestView::PollShutdown,
                ),
            },
            Err(error) => {
                let reason = ReasonView::RuntimeError(error.text());
                (
                    ActorView {
                        log: self.log.push(
                            Delivery {
                                mailbox: attach.mailbox(),
                                message: OutputView::Closed(reason),
                                delivered: results[0],
                            },
                        ),
                        ..self
                    },
                    RequestView::Stop(reason),
                )
            },
        }
    }

    /// The next state and request after the driver reported `input`, where the
    /// mailboxes answered with `results`.
    pub open spec fn step(self, input: ActorInput, results: Seq<bool>) -> (
        ActorView,
        RequestView,
    ) {
        match input {
            ActorInput::Started | ActorInput::Waited => (self, RequestView::PollShutdown),
            ActorInput::ShutdownPolled(reason) => (
                self,
                stop_or(
                    reason_view(reason),
                    if self.child_exited {
                        RequestView::PollCommand
                    } else {
                        RequestView::PollPty
                    },
                ),
            ),
            ActorInput::PtyPolled(Some(event)) => self.on_event(event, true, results),
            ActorInput::PtyPolled(None) => (self, RequestView::PollChild),
            ActorInput::ChildPolled(status) => self.on_status(
                status,
                None,
                RequestView::PollCommand,
                results,
            ),
            ActorInput::Command(command) => self.on_command(command, results),
            ActorInput::NoCommand => (
                self,
                if self.child_exited {
                    RequestView::Sleep
                } else {
                    RequestView::WaitPty
                },
            ),
            ActorInput::CommandsClosed => (self, RequestView::Stop(ReasonView::Supervisor)),
            ActorInput::WaitedForEvent(event) => self.on_event(event, false, results),
            ActorInput::EventsClosed => {
                let (state, reason) = self.child_exit(results);
                (state, stop_or(reason, RequestView::PollShutdown))
            },
            ActorInput::Probed { error, draining, status } => self.on_status(
                status,
                Some(error@),
                if draining {
                    RequestView::PollPty
                } else {
                    RequestView::PollShutdown
                },
                results,
            ),
            ActorInput::Written(Ok(_)) => (self, RequestView::PollShutdown),
            ActorInput::Resized(Ok(_)) => (
                self.broadcast(self.size_message(), false, results),
                RequestView::PollShutdown,
            ),
            ActorInput::Written(Err(error)) | ActorInput::Resized(Err(error)) => (
                self,
                RequestView::Stop(ReasonView::RuntimeError(error@)),
            ),
            ActorInput::Restarted { attach, result } => self.on_restart(attach, result, results),
        }
    }
}

fn stop_or_continue(reason: Option<ShutdownReason>, next: ActorRequest) -> (r: ActorRequest)
    ensures
        r@ == stop_or(reason_view(reason), next@),
{
    match reason {
        Some(reason) => ActorRequest::Stop(reason),
        None => next,
    }
}

impl SessionActor {
    /// Number that a new terminal process is to have.
    #[must_use]
    pub fn next_generation(&self) -> (r: u64)
        ensures
            r == self@.restart().generation,
    {
        self.reader_generation.saturating_add(1)
    }

    /// Terminal size.
    #[must_use]
    pub fn current_size(&self) -> (r: TerminalSize)
        ensures
            r == self@.size,
    {
        self.current_size
    }

    /// Mode of the session.
    #[must_use]
    pub fn mode(&self) -> (r: &SessionMode)
        ensures
            *r == self@.mode,
    {
        &self.mode
    }

    fn restarted(&mut self)
        requires
            old(self).wf(),
        ensures
            final(self).wf(),
            final(self)@ == old(self)@.restart(),
    {
        self.reader_generation = self.reader_generation.saturating_add(1);
        self.child_exited = false;
        self.replay.clear();
        self.replay_bytes = 0;
        proof {
            assert(self@.replay =~= seq![]);
        }
    }

    fn handle_pty_event(&mut self, event: PtyEvent, draining: bool) -> (r: ActorRequest)
        requires
            old(self).wf(),
        ensures
            final(self).wf(),
            (final(self)@, r@) == old(self)@.on_event(
                event,
                draining,
                results(old(self)@.log, final(self)@.log),
            ),
    {
        let next = if draining {
            ActorRequest::PollPty
        } else {
            ActorRequest::PollShutdown
        };
        if event.generation != self.reader_generation {
            return next;
        }
        match event.kind {
            PtyEventKind::Output(bytes) => {
                self.handle_output(bytes);
                next
            },
            PtyEventKind::ReaderError(error) => ActorRequest::Probe { error, draining },
            PtyEventKind::Eof => {
                let reason = self.handle_child_exit();
                stop_or_continue(reason, next)
            },
        }
    }

    fn resize(&mut self, size: TerminalSize) -> (r: ActorRequest)
        requires
            old(self).wf(),
        ensures
            final(self).wf(),
            (final(self)@, r@) == old(self)@.on_resize(
                size,
                results(old(self)@.log, final(self)@.log),
            ),
    {
        self.current_size = size;
        if self.child_exited {
            let message = self.current_size_message();
            let _ = self.broadcast(&message, false);
            ActorRequest::PollShutdown
        } else {
            ActorRequest::ResizePty(size)
        }
    }

    fn handle_command(&mut self, command: RuntimeCommand) -> (r: ActorRequest)
        requires
            old(self).wf(),
        ensures
            final(self).wf(),
            (final(self)@, r@) == old(self)@.on_command(
                command,
                results(old(self)@.log, final(self)@.log),
            ),
    {
        match command {
            RuntimeCommand::AttachTerminal { output } => {
                if self.child_exited {
                    return ActorRequest::Restart(PendingAttach::Terminal { output });
                }
                self.attach_terminal(output);
            },
            RuntimeCommand::AttachClient { client_id, output } => {
                if self.child_exited {
                    return ActorRequest::Restart(PendingAttach::Client { client_id, output });
                }
                self.attach_client(client_id, output);
            },
            RuntimeCommand::DetachClient { client_id } => {
                self.detach_client(client_id);
            },
            RuntimeCommand::AcquireControl { client_id } => {
                if self.controls(client_id) && !self.child_exited {
                    self.claim(InputLeaseOwner::Browser(client_id));
                }
            },
            RuntimeCommand::TerminalInput { bytes } => {
                if self.terminal.is_some() && !self.child_exited {
                    self.claim(InputLeaseOwner::Terminal);
                    return ActorRequest::Write(bytes);
                }
            },
            RuntimeCommand::Input { client_id, bytes } => {
                if self.controls(client_id) && !self.child_exited {
                    self.claim(InputLeaseOwner::Browser(client_id));
                    return ActorRequest::Write(bytes);
                }
            },
            RuntimeCommand::Resize { size } => {
                return self.resize(size);
            },
            RuntimeCommand::BrowserResize { client_id, size } => {
                if self.should_apply_browser_resize(client_id) {
                    return self.resize(size);
                }
            },
            RuntimeCommand::Shutdown { reason } => {
                return ActorRequest::Stop(reason);
            },
        }
        ActorRequest::PollShutdown
    }

    fn handle_status(
        &mut self,
        status: ChildStatus,
        reader_error: Option<String>,
        next: ActorRequest,
    ) -> (r: ActorRequest)
        requires
            old(self).wf(),
        ensures
            final(self).wf(),
            (final(self)@, r@) == old(self)@.on_status(
                status,
                match reader_error {
                    Some(error) => Some(error@),
                    None => None,
                },
                next@,
                results(old(self)@.log, final(self)@.log),
            ),
    {
        match status {
            ChildStatus::Exited => {
                let reason = self.handle_child_exit();
                stop_or_continue(reason, next)
            },
            ChildStatus::Running => match reader_error {
                Some(error) => ActorRequest::Stop(ShutdownReason::RuntimeError(error)),
                None => next,
            },
            ChildStatus::Failed(failure) => match reader_error {
                Some(error) => ActorRequest::Stop(ShutdownReason::RuntimeError(error)),
                None => ActorRequest::Stop(ShutdownReason::RuntimeError(failure)),
            },
        }
    }

    fn handle_restart(&mut self, attach: PendingAttach, result: Result<(), RuntimeError>) -> (r:
        ActorRequest)
        requires
            old(self).wf(),
        ensures
            final(self).wf(),
            (final(self)@, r@) == old(self)@.on_restart(
                attach,
                result,
                results(old(self)@.log, final(self)@.log),
            ),
    {
        match result {
            Ok(_) => {
                self.restarted();
                match attach {
                    PendingAttach::Terminal { output } => self.attach_terminal(output),
                    PendingAttach::Client { client_id, output } => self.attach_client(
                        client_id,
                        output,
                    ),
                }
                ActorRequest::PollShutdown
            },
            Err(error) => {
                let reason = ShutdownReason::RuntimeError(error.message().to_owned());
                let closed = ClientOutput::Closed(reason.clone());
                let mailbox = match attach {
                    PendingAttach::Terminal { output } => self.outbox.open(output),
                    PendingAttach::Client { output, .. } => self.outbox.open(output),
                };
                let _ = self.outbox.post(&mailbox, closed);
                ActorRequest::Stop(reason)
            },
        }
    }

    /// Takes what the driver reports and tells what to do next.
    ///
    /// Shutdown requests come first, then all events of the terminal process,
    /// then its end, then one command. Without a command the actor waits.
    pub fn step(&mut self, input: ActorInput) -> (r: ActorRequest)
        requires
            old(self).wf(),
        ensures
            final(self).wf(),
            (final(self)@, r@) == old(self)@.step(
                input,
                results(old(self)@.log, final(self)@.log),
            ),
    {
        match input {
            ActorInput::Started => ActorRequest::PollShutdown,
            ActorInput::Waited => ActorRequest::PollShutdown,
            ActorInput::ShutdownPolled(reason) => {
                let next = if self.child_exited {
                    ActorRequest::PollCommand
                } else {
                    ActorRequest::PollPty
                };
                stop_or_continue(reason, next)
            },
            ActorInput::PtyPolled(event) => match event {
                Some(event) => self.handle_pty_event(event, true),
                None => ActorRequest::PollChild,
            },
            ActorInput::ChildPolled(status) => self.handle_status(
                status,
                None,
                ActorRequest::PollCommand,
            ),
            ActorInput::Command(command) => self.handle_command(command),
            ActorInput::NoCommand => {
                if self.child_exited {
                    ActorRequest::Sleep
                } else {
                    ActorRequest::WaitPty
                }
            },
            ActorInput::CommandsClosed => ActorRequest::Stop(ShutdownReason::Supervisor),
            ActorInput::WaitedForEvent(event) => self.handle_pty_event(event, false),
            ActorInput::EventsClosed => {
                let reason = self.handle_child_exit();
                stop_or_continue(reason, ActorRequest::PollShutdown)
            },
            ActorInput::Probed { error, draining, status } => {
                let next = if draining {
                    ActorRequest::PollPty
                } else {
                    ActorRequest::PollShutdown
                };
                self.handle_status(status, Some(error), next)
            },
            ActorInput::Written(result) => match result {
                Ok(_) => ActorRequest::PollShutdown,
                Err(error) => ActorRequest::Stop(ShutdownReason::RuntimeError(error)),
            },
            ActorInput::Resized(result) => match result {
                Ok(_) => {
                    let message = self.current_size_message();
                    let _ = self.broadcast(&message, false);
                    ActorRequest::PollShutdown
                },
                Err(error) => ActorRequest::Stop(ShutdownReason::RuntimeError(error)),
            },
            ActorInput::Restarted { attach, result } => self.handle_restart(attach, result),
        }
    }
}

/// Each failure of the runtime is told in its own words.
pub proof fn law_runtime_failures_have_their_words(error: RuntimeError)
    ensures
        error is InvalidShellCommand ==> error.text() == "invalid shell command"@,
        error is DefaultShellUnavailable ==> error.text() == "failed to resolve default shell"@,
        error is TmuxUnavailable ==> error.text() == "tmux executable was not found"@,
        error is OpenPty ==> error.text() == "failed to open pty"@,
        error is Spawn ==> error.text() == "failed to spawn terminal process"@,
        error is CloneReader ==> error.text() == "failed to clone pty reader"@,
        error is TakeWriter ==> error.text() == "failed to take pty writer"@,
        error is ThreadSpawn ==> error.text() == "failed to spawn runtime thread"@,
        error is ActorStopped ==> error.text() == "runtime actor has stopped"@,
        error is ActorPanicked ==> error.text() == "runtime actor thread panicked"@,
{
}

} // verus!
