//! The commands of the command line and what they ask for.

use vstd::prelude::*;

use crate::backend::BackendScrollDirection;
use crate::cli::{
    CliError, CliScrollDirection, SessionAttachArgs, TextField, ValidatedSessionAttachConfig,
};
use crate::cli_sessions::CliBackend;
use crate::clock::Duration;
use crate::protocol::SessionName;
use crate::rmux_backend::RmuxSessionCommand;
use crate::tmux_backend::TmuxSessionCommand;

verus! {

/// A command on sessions, as it was given.
pub enum SessionCommand {
    /// Create a backend session.
    Create {
        /// Backend that owns the session.
        backend: CliBackend,
        /// Session name, without its prefix.
        name: String,
        /// Executable of the first pane.
        command: Option<Vec<u8>>,
        /// Arguments of the executable.
        command_args: Vec<Vec<u8>>,
    },
    /// Attach to a session.
    Attach(SessionAttachArgs),
    /// List sessions.
    List {
        /// Backend to list.
        backend: Option<CliBackend>,
    },
    /// Inspect a session.
    Inspect {
        /// Session id.
        session_id: String,
    },
    /// Read the screen of a session.
    Screen {
        /// Session id.
        session_id: String,
        /// Backend, where the session id is ambiguous.
        backend: Option<CliBackend>,
    },
    /// Send text to a session.
    SendText {
        /// Session id.
        session_id: String,
        /// Backend, where the session id is ambiguous.
        backend: Option<CliBackend>,
        /// Text.
        text: String,
    },
    /// Send a key to a session.
    SendKey {
        /// Session id.
        session_id: String,
        /// Backend, where the session id is ambiguous.
        backend: Option<CliBackend>,
        /// Key.
        key: String,
    },
    /// Run a command in a session.
    Exec {
        /// Session id.
        session_id: String,
        /// Backend, where the session id is ambiguous.
        backend: Option<CliBackend>,
        /// Text to wait for.
        wait_for: Option<String>,
        /// How long to wait, in milliseconds.
        wait_timeout_ms: Option<u64>,
        /// Return the screen.
        capture: bool,
        /// Words of the command.
        command: Vec<String>,
    },
    /// Scroll a session.
    Scroll {
        /// Session id.
        session_id: String,
        /// Backend, where the session id is ambiguous.
        backend: Option<CliBackend>,
        /// Direction.
        direction: CliScrollDirection,
        /// Amount.
        amount: u16,
    },
    /// Stop a session.
    Stop {
        /// Session id.
        session_id: String,
    },
}

/// The command that a new session starts with.
pub enum BackendSessionCommand {
    /// Command of a tmux session.
    Tmux(Option<TmuxSessionCommand>),
    /// Command of an rmux session.
    Rmux(Option<RmuxSessionCommand>),
}

/// A command on sessions that can be carried out.
pub enum SessionPlan {
    /// Create a backend session.
    Create {
        /// Name of the session in its backend.
        session: SessionName,
        /// The command that the session starts with, in its backend.
        command: BackendSessionCommand,
    },
    /// Attach a browser to a session.
    AttachBrowser(ValidatedSessionAttachConfig),
    /// Attach this terminal to a session.
    AttachNative {
        /// Session.
        session: SessionName,
        /// Backend, where the session is ambiguous.
        backend: Option<CliBackend>,
    },
    /// List sessions.
    List {
        /// Backend to list.
        backend: Option<CliBackend>,
    },
    /// Inspect a session.
    Inspect {
        /// Session.
        session: SessionName,
    },
    /// Read the screen of a session.
    Screen {
        /// Session.
        session: SessionName,
        /// Backend, where the session is ambiguous.
        backend: Option<CliBackend>,
    },
    /// Send text to a session.
    SendText {
        /// Session.
        session: SessionName,
        /// Backend, where the session is ambiguous.
        backend: Option<CliBackend>,
        /// Text.
        text: String,
    },
    /// Send a key to a session.
    SendKey {
        /// Session.
        session: SessionName,
        /// Backend, where the session is ambiguous.
        backend: Option<CliBackend>,
        /// Backend token of the key.
        token: String,
    },
    /// Run a command in a session.
    Exec {
        /// Session.
        session: SessionName,
        /// Backend, where the session is ambiguous.
        backend: Option<CliBackend>,
        /// Command line.
        command: String,
        /// Text to wait for.
        wait_for: Option<String>,
        /// How long to wait.
        timeout: Duration,
        /// Return the screen.
        capture: bool,
    },
    /// Scroll a session.
    Scroll {
        /// Session.
        session: SessionName,
        /// Backend, where the session is ambiguous.
        backend: Option<CliBackend>,
        /// Direction.
        direction: BackendScrollDirection,
        /// Amount.
        amount: u16,
    },
    /// Stop a session.
    Stop {
        /// Session.
        session: SessionName,
    },
}

/// The first of two failures.
pub open spec fn first(a: Option<CliError>, b: Option<CliError>) -> Option<CliError> {
    match a {
        Some(error) => Some(error),
        None => b,
    }
}

/// The failure of an outcome.
pub open spec fn failure<T>(r: Result<T, CliError>) -> Option<CliError> {
    match r {
        Ok(_) => None,
        Err(error) => Some(error),
    }
}

/// What is wrong with a session id.
pub open spec fn id_error(session_id: Seq<char>) -> Option<CliError> {
    if crate::protocol::valid_session_name(session_id) {
        None
    } else {
        Some(CliError::SessionId)
    }
}

/// The session that is created under a name.
pub open spec fn created_session(name: Seq<char>) -> Result<
    Seq<char>,
    crate::cli_sessions::NameError,
> {
    crate::cli_sessions::prefixed_session(
        name,
        crate::cli_sessions::TERMSTAGE_SESSION_PREFIX@,
        crate::cli_sessions::NameError::PrefixedName,
    )
}

/// What is wrong with the command of a new session.
pub open spec fn command_error(
    backend: CliBackend,
    command: Option<Vec<u8>>,
    args: Seq<Vec<u8>>,
) -> Option<CliError> {
    match (backend, command) {
        (CliBackend::Rmux, Some(path)) => if crate::rmux_backend::command_argv(path@, args)
            is Ok {
            None
        } else {
            Some(CliError::RmuxCommand)
        },
        _ => None,
    }
}

impl SessionCommand {
    /// Why the command is refused. A browser attach is judged apart.
    pub open spec fn refusal(self) -> Option<CliError> {
        match self {
            SessionCommand::Create { backend, name, command, command_args } => first(
                if command is None && command_args@.len() > 0 {
                    Some(CliError::CommandArgsWithoutCommand)
                } else {
                    None
                },
                match created_session(name@) {
                    Err(error) => Some(CliError::Name(error)),
                    Ok(_) => command_error(backend, command, command_args@),
                },
            ),
            SessionCommand::Attach(args) => id_error(args.session_id@),
            SessionCommand::List { .. } => None,
            SessionCommand::Inspect { session_id } => id_error(session_id@),
            SessionCommand::Screen { session_id, .. } => id_error(session_id@),
            SessionCommand::SendText { session_id, text, .. } => first(
                crate::cli::text_error(
                    text@,
                    crate::web::SEMANTIC_TEXT_MAX_BYTES,
                    TextField::Text,
                ),
                id_error(session_id@),
            ),
            SessionCommand::SendKey { session_id, key, .. } => first(
                failure(crate::cli::local_key(key@)),
                id_error(session_id@),
            ),
            SessionCommand::Exec { session_id, wait_for, wait_timeout_ms, command, .. } => first(
                failure(crate::cli::exec_line(crate::text::texts(command@))),
                first(
                    match wait_for {
                        Some(text) => crate::cli::wait_text_error(text@, TextField::WaitFor),
                        None => None,
                    },
                    first(
                        if crate::web::wait_millis(wait_timeout_ms) is Some {
                            None
                        } else {
                            Some(CliError::WaitTimeout)
                        },
                        id_error(session_id@),
                    ),
                ),
            ),
            SessionCommand::Scroll { session_id, amount, .. } => first(
                if 1 <= amount <= crate::web::SEMANTIC_SCROLL_MAX_AMOUNT {
                    None
                } else {
                    Some(CliError::ScrollAmount)
                },
                id_error(session_id@),
            ),
            SessionCommand::Stop { session_id } => id_error(session_id@),
        }
    }

    /// Tells whether `plan` carries the command out.
    pub open spec fn asks_for(self, plan: SessionPlan) -> bool {
        match self {
            SessionCommand::Create { backend, name, command: path, command_args } => {
                &&& plan matches SessionPlan::Create { session, command }
                &&& created_session(name@) == Ok::<Seq<char>, crate::cli_sessions::NameError>(
                    session@,
                )
                &&& starts_with(backend, path, command_args@, command)
            },
            SessionCommand::Attach(args) => {
                &&& plan matches SessionPlan::AttachNative { session, backend }
                &&& session@ == args.session_id@
                &&& backend == args.backend
            },
            SessionCommand::List { backend: asked } => {
                &&& plan matches SessionPlan::List { backend }
                &&& backend == asked
            },
            SessionCommand::Inspect { session_id } => {
                &&& plan matches SessionPlan::Inspect { session }
                &&& session@ == session_id@
            },
            SessionCommand::Screen { session_id, backend: asked } => {
                &&& plan matches SessionPlan::Screen { session, backend }
                &&& session@ == session_id@
                &&& backend == asked
            },
            SessionCommand::SendText { session_id, backend: asked, text: given } => {
                &&& plan matches SessionPlan::SendText { session, backend, text }
                &&& session@ == session_id@
                &&& backend == asked
                &&& text@ == given@
            },
            SessionCommand::SendKey { session_id, backend: asked, key } => {
                &&& plan matches SessionPlan::SendKey { session, backend, token }
                &&& session@ == session_id@
                &&& backend == asked
                &&& crate::cli::local_key(key@) == Ok::<Seq<char>, CliError>(token@)
            },
            SessionCommand::Exec {
                session_id,
                backend: asked,
                wait_for: awaited,
                wait_timeout_ms,
                capture: captured,
                command: words,
            } => {
                &&& plan matches SessionPlan::Exec {
                    session,
                    backend,
                    command,
                    wait_for,
                    timeout,
                    capture,
                }
                &&& session@ == session_id@
                &&& backend == asked
                &&& crate::cli::exec_line(crate::text::texts(words@)) == Ok::<Seq<char>, CliError>(
                    command@,
                )
                &&& wait_for == awaited
                &&& timeout@ == crate::web::wait_millis(wait_timeout_ms)->0 * 1_000_000
                &&& capture == captured
            },
            SessionCommand::Scroll { session_id, backend: asked, direction: way, amount: lines } => {
                &&& plan matches SessionPlan::Scroll { session, backend, direction, amount }
                &&& session@ == session_id@
                &&& backend == asked
                &&& direction == way.direction()
                &&& amount == lines
            },
            SessionCommand::Stop { session_id } => {
                &&& plan matches SessionPlan::Stop { session }
                &&& session@ == session_id@
            },
        }
    }
}

/// Tells whether a new session of `backend` starts with the executable and the
/// arguments that were given.
pub open spec fn starts_with(
    backend: CliBackend,
    path: Option<Vec<u8>>,
    args: Seq<Vec<u8>>,
    command: BackendSessionCommand,
) -> bool {
    match (backend, path) {
        (CliBackend::Tmux, None) => {
            &&& command matches BackendSessionCommand::Tmux(none)
            &&& none is None
        },
        (CliBackend::Tmux, Some(path)) => {
            &&& command matches BackendSessionCommand::Tmux(Some(command))
            &&& command.executable_bytes() == path@
            &&& command.arg_list() == args
        },
        (CliBackend::Rmux, None) => {
            &&& command matches BackendSessionCommand::Rmux(none)
            &&& none is None
        },
        (CliBackend::Rmux, Some(path)) => {
            &&& command matches BackendSessionCommand::Rmux(Some(command))
            &&& crate::rmux_backend::command_argv(path@, args) == Ok::<
                Seq<Seq<char>>,
                crate::backend::FailureView,
            >(command@)
        },
    }
}

/// Validates how arguments go together.
pub fn validate_session_args(command: &SessionCommand) -> (r: Result<(), CliError>)
    ensures
        r == (match *command {
            SessionCommand::Create { command: None, command_args, .. } if command_args@.len()
                > 0 => Err(CliError::CommandArgsWithoutCommand),
            _ => Ok(()),
        }),
{
    match command {
        SessionCommand::Create { command, command_args, .. } => {
            if command.is_none() && !command_args.is_empty() {
                return Err(CliError::CommandArgsWithoutCommand);
            }
            Ok(())
        },
        _ => Ok(()),
    }
}

fn session_id_of(session_id: &str) -> (r: Result<SessionName, CliError>)
    ensures
        match r {
            Ok(session) => id_error(session_id@) is None && session@ == session_id@,
            Err(error) => id_error(session_id@) == Some(error),
        },
{
    match SessionName::new(session_id) {
        Ok(session) => Ok(session),
        Err(_) => Err(CliError::SessionId),
    }
}

/// Returns the new session that a create command asks for.
fn create_plan(
    backend: CliBackend,
    name: &str,
    path: Option<Vec<u8>>,
    args: Vec<Vec<u8>>,
) -> (r: Result<(SessionName, BackendSessionCommand), CliError>)
    ensures
        match r {
            Ok(parts) => {
                &&& created_session(name@) == Ok::<Seq<char>, crate::cli_sessions::NameError>(
                    parts.0@,
                )
                &&& command_error(backend, path, args@) is None
                &&& starts_with(backend, path, args@, parts.1)
            },
            Err(error) => match created_session(name@) {
                Err(reason) => error == CliError::Name(reason),
                Ok(_) => command_error(backend, path, args@) == Some(error),
            },
        },
{
    let session = match backend {
        CliBackend::Tmux => crate::cli_sessions::termstage_tmux_session_name(name),
        CliBackend::Rmux => crate::cli_sessions::termstage_rmux_session_name(name),
    };
    let session = match session {
        Ok(session) => session,
        Err(error) => return Err(CliError::Name(error)),
    };
    match backend {
        CliBackend::Tmux => {
            let command = crate::cli::tmux_session_command(path, args);
            Ok((session, BackendSessionCommand::Tmux(command)))
        },
        CliBackend::Rmux => match crate::cli::rmux_session_command(path, args) {
            Ok(command) => Ok((session, BackendSessionCommand::Rmux(command))),
            Err(_) => Err(CliError::RmuxCommand),
        },
    }
}

/// Returns the command and what it waits for, validated.
fn exec_plan(
    words: &Vec<String>,
    wait_for: &Option<String>,
    wait_timeout_ms: Option<u64>,
) -> (r: Result<(String, Duration), CliError>)
    ensures
        match r {
            Ok(parts) => {
                &&& crate::cli::exec_line(crate::text::texts(words@)) == Ok::<Seq<char>, CliError>(
                    parts.0@,
                )
                &&& *wait_for matches Some(text) ==> crate::cli::wait_text_error(
                    text@,
                    TextField::WaitFor,
                ) is None
                &&& crate::web::wait_millis(wait_timeout_ms) matches Some(millis)
                &&& parts.1@ == millis * 1_000_000
            },
            Err(error) => first(
                failure(crate::cli::exec_line(crate::text::texts(words@))),
                first(
                    match *wait_for {
                        Some(text) => crate::cli::wait_text_error(text@, TextField::WaitFor),
                        None => None,
                    },
                    if crate::web::wait_millis(wait_timeout_ms) is Some {
                        None
                    } else {
                        Some(CliError::WaitTimeout)
                    },
                ),
            ) == Some(error),
        },
{
    let command = match crate::cli::local_exec_command(words) {
        Ok(command) => command,
        Err(error) => return Err(error),
    };
    match wait_for {
        Some(text) => match crate::cli::validate_wait_text(text.as_str(), TextField::WaitFor) {
            Ok(_) => {},
            Err(error) => return Err(error),
        },
        None => {},
    }
    match crate::cli::semantic_wait_timeout(wait_timeout_ms) {
        Ok(timeout) => Ok((command, timeout)),
        Err(error) => Err(error),
    }
}

/// Validates a command on sessions. `token_value` is what the token variable of a
/// browser attach holds.
///
/// What the command says is judged before the session id.
pub fn run_session_command(command: SessionCommand, token_value: Option<&str>) -> (r: Result<
    SessionPlan,
    CliError,
>)
    ensures
        match command {
            SessionCommand::Attach(args) if args.browser => match r {
                Ok(plan) => {
                    &&& plan matches SessionPlan::AttachBrowser(config)
                    &&& crate::cli::attach_outcome(
                        args,
                        crate::cli::opt_str(token_value),
                        Ok(config),
                    )
                },
                Err(error) => crate::cli::attach_outcome(
                    args,
                    crate::cli::opt_str(token_value),
                    Err(error),
                ),
            },
            _ => match r {
                Ok(plan) => command.refusal() is None && command.asks_for(plan),
                Err(error) => command.refusal() == Some(error),
            },
        },
{
    match validate_session_args(&command) {
        Ok(_) => {},
        Err(error) => return Err(error),
    }
    match command {
        SessionCommand::Create { backend, name, command, command_args } => match create_plan(
            backend,
            name.as_str(),
            command,
            command_args,
        ) {
            Ok((session, command)) => Ok(SessionPlan::Create { session, command }),
            Err(error) => Err(error),
        },
        SessionCommand::Attach(args) => {
            if args.browser {
                return match ValidatedSessionAttachConfig::try_from(args, token_value) {
                    Ok(config) => Ok(SessionPlan::AttachBrowser(config)),
                    Err(error) => Err(error),
                };
            }
            match session_id_of(args.session_id.as_str()) {
                Ok(session) => Ok(SessionPlan::AttachNative { session, backend: args.backend }),
                Err(error) => Err(error),
            }
        },
        SessionCommand::List { backend } => Ok(SessionPlan::List { backend }),
        SessionCommand::Inspect { session_id } => match session_id_of(session_id.as_str()) {
            Ok(session) => Ok(SessionPlan::Inspect { session }),
            Err(error) => Err(error),
        },
        SessionCommand::Screen { session_id, backend } => match session_id_of(
            session_id.as_str(),
        ) {
            Ok(session) => Ok(SessionPlan::Screen { session, backend }),
            Err(error) => Err(error),
        },
        SessionCommand::SendText { session_id, backend, text } => {
            match crate::cli::validate_local_text(
                text.as_str(),
                crate::web::SEMANTIC_TEXT_MAX_BYTES,
                TextField::Text,
            ) {
                Ok(_) => {},
                Err(error) => return Err(error),
            }
            match session_id_of(session_id.as_str()) {
                Ok(session) => Ok(SessionPlan::SendText { session, backend, text }),
                Err(error) => Err(error),
            }
        },
        SessionCommand::SendKey { session_id, backend, key } => {
            let token = match crate::cli::local_semantic_key_token(key.as_str()) {
                Ok(token) => token,
                Err(error) => return Err(error),
            };
            match session_id_of(session_id.as_str()) {
                Ok(session) => Ok(SessionPlan::SendKey { session, backend, token }),
                Err(error) => Err(error),
            }
        },
        SessionCommand::Exec {
            session_id,
            backend,
            wait_for,
            wait_timeout_ms,
            capture,
            command,
        } => {
            let (command, timeout) = match exec_plan(&command, &wait_for, wait_timeout_ms) {
                Ok(parts) => parts,
                Err(error) => return Err(error),
            };
            match session_id_of(session_id.as_str()) {
                Ok(session) => Ok(
                    SessionPlan::Exec { session, backend, command, wait_for, timeout, capture },
                ),
                Err(error) => Err(error),
            }
        },
        SessionCommand::Scroll { session_id, backend, direction, amount } => {
            let amount = match crate::cli::validate_local_scroll_amount(amount) {
                Ok(amount) => amount,
                Err(error) => return Err(error),
            };
            match session_id_of(session_id.as_str()) {
                Ok(session) => Ok(
                    SessionPlan::Scroll {
                        session,
                        backend,
                        direction: direction.as_backend(),
                        amount,
                    },
                ),
                Err(error) => Err(error),
            }
        },
        SessionCommand::Stop { session_id } => match session_id_of(session_id.as_str()) {
            Ok(session) => Ok(SessionPlan::Stop { session }),
            Err(error) => Err(error),
        },
    }
}

/// A command that is granted is carried out on the session that it names, in the backend that
/// it names, with what it gives: its text or key, its line of words, or the way and the amount
/// to scroll.
pub proof fn law_plans_do_what_commands_say(command: SessionCommand, plan: SessionPlan)
    requires
        command.refusal() is None,
        command.asks_for(plan),
    ensures
        match plan {
            SessionPlan::Create { session, .. } => {
                &&& command matches SessionCommand::Create { name, .. }
                &&& created_session(name@) matches Ok(created)
                &&& created == session@
            },
            SessionPlan::AttachNative { session, backend } => {
                &&& command matches SessionCommand::Attach(args)
                &&& session@ == args.session_id@
                &&& backend == args.backend
            },
            SessionPlan::AttachBrowser(_) => false,
            SessionPlan::List { backend } => command == SessionCommand::List { backend },
            SessionPlan::Inspect { session } => {
                &&& command matches SessionCommand::Inspect { session_id }
                &&& session@ == session_id@
            },
            SessionPlan::Screen { session, backend } => {
                &&& command matches SessionCommand::Screen { session_id, backend: asked }
                &&& session@ == session_id@
                &&& backend == asked
            },
            SessionPlan::SendText { session, backend, text } => {
                &&& command matches SessionCommand::SendText {
                    session_id,
                    backend: asked,
                    text: given,
                }
                &&& session@ == session_id@
                &&& backend == asked
                &&& text@ == given@
                &&& crate::web::writable_text(text@)
            },
            SessionPlan::SendKey { session, backend, token } => {
                &&& command matches SessionCommand::SendKey { session_id, backend: asked, key }
                &&& session@ == session_id@
                &&& backend == asked
                &&& crate::web::key_token(key@) == Some(token@)
            },
            SessionPlan::Exec { session, backend, command: line, wait_for, timeout, capture } => {
                &&& command matches SessionCommand::Exec {
                    session_id,
                    backend: asked,
                    wait_for: awaited,
                    wait_timeout_ms,
                    capture: captured,
                    command: words,
                }
                &&& session@ == session_id@
                &&& backend == asked
                &&& line@ == crate::text::joined(crate::text::texts(words@), seq![' '])
                &&& crate::web::runnable_command(line@)
                &&& wait_for == awaited
                &&& wait_for matches Some(text) ==> crate::web::awaitable_text(text@)
                &&& capture == captured
                &&& wait_timeout_ms is None ==> timeout@ == 5_000_000_000
                &&& wait_timeout_ms matches Some(millis) ==> timeout@ == millis * 1_000_000 && 1
                    <= millis <= 60_000
            },
            SessionPlan::Scroll { session, backend, direction, amount } => {
                &&& command matches SessionCommand::Scroll {
                    session_id,
                    backend: asked,
                    direction: way,
                    amount: lines,
                }
                &&& session@ == session_id@
                &&& backend == asked
                &&& direction is Up <==> way is Up
                &&& amount == lines
                &&& 1 <= amount <= 100
            },
            SessionPlan::Stop { session } => {
                &&& command matches SessionCommand::Stop { session_id }
                &&& session@ == session_id@
            },
        },
{
    if let SessionCommand::Exec { command: words, .. } = command {
        crate::cli::law_command_words_make_a_line(crate::text::texts(words@), seq![]);
    }
}

/// A command is refused for its session id only where nothing else is wrong with it, and a
/// command on a session is never granted for a text that names none. Arguments for a command
/// need the command.
pub proof fn law_session_id_is_judged_last(command: SessionCommand, session: Seq<char>)
    requires
        match command {
            SessionCommand::Create { .. } | SessionCommand::List { .. } => false,
            SessionCommand::Attach(args) => args.session_id@ == session,
            SessionCommand::Inspect { session_id } => session_id@ == session,
            SessionCommand::Screen { session_id, .. } => session_id@ == session,
            SessionCommand::SendText { session_id, .. } => session_id@ == session,
            SessionCommand::SendKey { session_id, .. } => session_id@ == session,
            SessionCommand::Exec { session_id, .. } => session_id@ == session,
            SessionCommand::Scroll { session_id, .. } => session_id@ == session,
            SessionCommand::Stop { session_id } => session_id@ == session,
        },
    ensures
        command.refusal() is None ==> crate::protocol::valid_session_name(session),
        crate::protocol::valid_session_name(session) ==> command.refusal() != Some(
            CliError::SessionId,
        ),
        !crate::protocol::valid_session_name(session) ==> command.refusal() is Some,
        match command {
            SessionCommand::SendText { text, .. } => !crate::web::writable_text(text@)
                ==> command.refusal() is Some && command.refusal() != Some(CliError::SessionId),
            SessionCommand::SendKey { key, .. } => crate::web::key_token(key@) is None
                ==> command.refusal() is Some && command.refusal() != Some(CliError::SessionId),
            SessionCommand::Scroll { amount, .. } => amount < 1 || amount > 100
                ==> command.refusal() == Some(CliError::ScrollAmount),
            SessionCommand::Exec { wait_for: None, command: words, wait_timeout_ms: Some(millis), .. } => {
                crate::cli::exec_line(crate::text::texts(words@)) is Ok && (millis < 1 || millis
                    > 60_000) ==> command.refusal() == Some(CliError::WaitTimeout)
            },
            SessionCommand::Exec { command: words, .. } => {
                crate::cli::exec_line(crate::text::texts(words@)) matches Err(error)
                    ==> command.refusal() == Some(error)
            },
            _ => true,
        },
{
}

/// A session is created with the command that is given, in the backend that is named, or with
/// the default of that backend where none is; arguments alone are refused.
pub proof fn law_created_session_starts_the_given_command(
    backend: CliBackend,
    name: String,
    path: Option<Vec<u8>>,
    args: Vec<Vec<u8>>,
    session: SessionName,
    command: BackendSessionCommand,
)
    ensures
        ({
            let asked = SessionCommand::Create { backend, name, command: path, command_args: args };
            let plan = SessionPlan::Create { session, command };
            &&& path is None && args@.len() > 0 ==> asked.refusal() == Some(
                CliError::CommandArgsWithoutCommand,
            )
            &&& asked.asks_for(plan) ==> {
                &&& command is Tmux <==> backend is Tmux
                &&& command is Rmux <==> backend is Rmux
                &&& command matches BackendSessionCommand::Tmux(started) ==> {
                    &&& started is Some <==> path is Some
                    &&& started matches Some(started) ==> started.executable_bytes() == path->0@
                        && started.arg_list() == args@
                }
                &&& command matches BackendSessionCommand::Rmux(started) ==> {
                    &&& started is Some <==> path is Some
                    &&& started matches Some(started) ==> started@.len() == args@.len() + 1
                        && started@[0] == vstd::utf8::decode_utf8(path->0@)
                }
            }
        }),
{
}

} // verus!
