//! rmux sessions and what rmux answers.
//!
//! rmux owns the real session, pane, screen parser and output retention. What is
//! decided about its sessions is decided here.

use vstd::prelude::*;

use crate::backend::{
    BackendError, BackendKind, BackendPaneId, BackendScreenSnapshot, BackendSessionRef,
    BackendWindowId, FailureView, SessionRefView, SnapshotView,
};
use crate::clock::Duration;
use crate::name_map::NameMap;
use crate::protocol::{SafeMessage, SessionName, TerminalSize};
use crate::tmux_backend::InfoView;

verus! {

/// rmux backend adapter configuration.
#[derive(Debug, Clone, Copy, PartialEq, Eq, Structural)]
#[non_exhaustive]
pub struct RmuxBackendConfig {
    /// Default timeout applied to rmux daemon operations.
    pub default_operation_timeout: Duration,
    /// Whether closing kills sessions that were only reused instead of created.
    pub close_reused_sessions: bool,
}

impl Default for RmuxBackendConfig {
    fn default() -> (r: Self)
        ensures
            r.default_operation_timeout@ == 5_000_000_000,
            !r.close_reused_sessions,
    {
        RmuxBackendConfig {
            default_operation_timeout: Duration::from_secs(5),
            close_reused_sessions: false,
        }
    }
}

/// Command used to start a new rmux session pane.
#[derive(Debug, Clone, PartialEq, Eq)]
pub struct RmuxSessionCommand {
    argv: Vec<String>,
}

impl View for RmuxSessionCommand {
    type V = Seq<Seq<char>>;

    closed spec fn view(&self) -> Seq<Seq<char>> {
        crate::text::texts(self.argv@)
    }
}

/// The texts that `items` encode, where each of them is UTF-8.
pub open spec fn decoded(items: Seq<Vec<u8>>) -> Option<Seq<Seq<char>>> {
    if forall|i: int| 0 <= i < items.len() ==> vstd::utf8::valid_utf8((#[trigger] items[i])@) {
        Some(items.map_values(|item: Vec<u8>| vstd::utf8::decode_utf8(item@)))
    } else {
        None
    }
}

/// The command that an executable and arguments make. All are UTF-8, and the
/// executable is not empty.
pub open spec fn command_argv(executable: Seq<u8>, args: Seq<Vec<u8>>) -> Result<
    Seq<Seq<char>>,
    FailureView,
> {
    if !vstd::utf8::valid_utf8(executable) {
        Err(FailureView::UnsupportedInput)
    } else if executable.len() == 0 {
        Err(FailureView::Operation("rmux command executable must not be empty"@))
    } else {
        match decoded(args) {
            Some(texts) => Ok(seq![vstd::utf8::decode_utf8(executable)] + texts),
            None => Err(FailureView::UnsupportedInput),
        }
    }
}

fn os_string_to_string(value: Vec<u8>) -> (r: Result<String, BackendError>)
    ensures
        match r {
            Ok(text) => vstd::utf8::valid_utf8(value@) && text@ == vstd::utf8::decode_utf8(
                value@,
            ),
            Err(error) => !vstd::utf8::valid_utf8(value@) && error@
                == FailureView::UnsupportedInput,
        },
{
    match String::from_utf8(value) {
        Ok(text) => {
            proof {
                vstd::utf8::encode_utf8_decode_utf8(text@);
            }
            Ok(text)
        },
        Err(_) => Err(BackendError::UnsupportedInput),
    }
}

impl RmuxSessionCommand {
    /// Creates an rmux session command after validating all argv items as
    /// UTF-8 strings.
    pub fn try_new(executable: Vec<u8>, command_args: Vec<Vec<u8>>) -> (r: Result<
        Self,
        BackendError,
    >)
        ensures
            match r {
                Ok(command) => command_argv(executable@, command_args@) == Ok::<
                    Seq<Seq<char>>,
                    FailureView,
                >(command@),
                Err(error) => command_argv(executable@, command_args@) == Err::<
                    Seq<Seq<char>>,
                    FailureView,
                >(error@),
            },
    {
        let ghost items = command_args@;
        let empty = executable.is_empty();
        let name = match os_string_to_string(executable) {
            Ok(name) => name,
            Err(error) => return Err(error),
        };
        if empty {
            return Err(
                BackendError::Operation(
                    SafeMessage::from_static("rmux command executable must not be empty"),
                ),
            );
        }
        let ghost head = name@;
        let mut argv: Vec<String> = Vec::new();
        argv.push(name);
        let mut i: usize = 0;
        proof {
            assert(crate::text::texts(argv@) =~= seq![head]);
        }
        while i < command_args.len()
            invariant
                i <= command_args@.len(),
                items == command_args@,
                forall|k: int|
                    0 <= k < i ==> vstd::utf8::valid_utf8((#[trigger] items[k])@),
                argv@.len() == i + 1,
                argv@[0]@ == head,
                forall|k: int|
                    0 <= k < i ==> (#[trigger] argv@[k + 1])@ == vstd::utf8::decode_utf8(
                        items[k]@,
                    ),
                head == vstd::utf8::decode_utf8(executable@),
                vstd::utf8::valid_utf8(executable@),
                executable@.len() > 0,
            decreases command_args@.len() - i,
        {
            match os_string_to_string(vstd::slice::slice_to_vec(command_args[i].as_slice())) {
                Ok(text) => argv.push(text),
                Err(error) => {
                    proof {
                        assert(!vstd::utf8::valid_utf8(items[i as int]@));
                        assert(decoded(items) is None);
                    }
                    return Err(error);
                },
            }
            i += 1;
        }
        let command = RmuxSessionCommand { argv };
        proof {
            let texts = items.map_values(|item: Vec<u8>| vstd::utf8::decode_utf8(item@));
            assert forall|k: int| 0 <= k < command@.len() implies command@[k] == (seq![head]
                + texts)[k] by {
                if k > 0 {
                    assert(argv@[(k - 1) + 1]@ == vstd::utf8::decode_utf8(items[k - 1]@));
                }
            }
            assert(command@ =~= seq![head] + texts);
        }
        Ok(command)
    }

    /// Returns the argv vector passed to rmux.
    #[must_use]
    pub fn argv(&self) -> (r: &[String])
        ensures
            crate::text::texts(r@) == self@,
    {
        self.argv.as_slice()
    }
}

/// rmux session details used by supervisor CLI commands.
#[derive(Debug, Clone, PartialEq, Eq)]
pub struct RmuxSessionInfo {
    session: SessionName,
    window: BackendWindowId,
    pane: BackendPaneId,
    size: TerminalSize,
}

impl View for RmuxSessionInfo {
    type V = InfoView;

    closed spec fn view(&self) -> InfoView {
        InfoView {
            session: self.session@,
            window: self.window@,
            pane: self.pane@,
            size: self.size@,
        }
    }
}

impl RmuxSessionInfo {
    /// Creates rmux session details.
    #[must_use]
    pub fn new(
        session: SessionName,
        window: BackendWindowId,
        pane: BackendPaneId,
        size: TerminalSize,
    ) -> (r: Self)
        ensures
            r@ == (InfoView {
                session: session@,
                window: window@,
                pane: pane@,
                size: size@,
            }),
    {
        RmuxSessionInfo { session, window, pane, size }
    }

    /// Returns the session name.
    #[must_use]
    pub fn session(&self) -> (r: &SessionName)
        ensures
            r@ == self@.session,
    {
        &self.session
    }

    /// Returns the active window id.
    #[must_use]
    pub fn window(&self) -> (r: &BackendWindowId)
        ensures
            r@ == self@.window,
    {
        &self.window
    }

    /// Returns the active pane id.
    #[must_use]
    pub fn pane(&self) -> (r: &BackendPaneId)
        ensures
            r@ == self@.pane,
    {
        &self.pane
    }

    /// Returns the active pane size.
    #[must_use]
    pub fn size(&self) -> (r: TerminalSize)
        ensures
            r@ == self@.size,
    {
        self.size
    }

    /// Returns the active pane reference.
    #[must_use]
    pub fn backend_ref(&self) -> (r: BackendSessionRef)
        ensures
            r@ == (SessionRefView {
                kind: BackendKind::Rmux,
                session: self@.session,
                window: self@.window,
                pane: self@.pane,
            }),
    {
        BackendSessionRef::new(
            BackendKind::Rmux,
            self.session.clone(),
            self.window.clone(),
            self.pane.clone(),
        )
    }
}

/// Which rmux sessions were resolved, and whether they were created for it.
pub struct RmuxBindings {
    created: NameMap<bool>,
}

impl View for RmuxBindings {
    type V = Map<Seq<char>, bool>;

    closed spec fn view(&self) -> Map<Seq<char>, bool> {
        self.created@
    }
}

/// Tells whether closing `session` kills it.
pub open spec fn kills(
    bindings: Map<Seq<char>, bool>,
    session: Seq<char>,
    close_reused_sessions: bool,
) -> bool {
    close_reused_sessions || (bindings.dom().contains(session) && bindings[session])
}

impl RmuxBindings {
    /// No session was resolved yet.
    #[must_use]
    pub fn new() -> (r: Self)
        ensures
            r@ == Map::<Seq<char>, bool>::empty(),
    {
        RmuxBindings { created: NameMap::new() }
    }

    /// Notes that a session was resolved, and whether it was created for it.
    pub fn remember_binding(&mut self, session: &SessionName, created_by_adapter: bool)
        ensures
            final(self)@ == old(self)@.insert(session@, created_by_adapter),
    {
        self.created.insert(session.clone(), created_by_adapter);
    }

    /// Tells whether closing a session kills it: it was created here, or reused
    /// sessions are killed too.
    #[must_use]
    pub fn should_kill(&self, session: &SessionName, config: &RmuxBackendConfig) -> (r: bool)
        ensures
            r == kills(self@, session@, config.close_reused_sessions),
    {
        let created = match self.created.get(session) {
            Some(created) => *created,
            None => false,
        };
        created || config.close_reused_sessions
    }

    /// Forgets a session that was closed.
    pub fn forget(&mut self, session: &SessionName)
        ensures
            final(self)@ == old(self)@.remove(session@),
    {
        let _ = self.created.remove(session);
    }
}

impl Default for RmuxBindings {
    fn default() -> (r: Self)
        ensures
            r@ == Map::<Seq<char>, bool>::empty(),
    {
        RmuxBindings::new()
    }
}

/// Closing a session that was found kills it only where that is configured, and
/// closing one that was created always does.
pub proof fn law_close_spares_reused_sessions(
    bindings: Map<Seq<char>, bool>,
    session: Seq<char>,
    created: bool,
    close_reused_sessions: bool,
)
    ensures
        kills(bindings.insert(session, created), session, close_reused_sessions) == (created
            || close_reused_sessions),
        kills(bindings.remove(session), session, close_reused_sessions) == close_reused_sessions,
{
}

/// A session name as rmux writes it: dots become underscores.
pub open spec fn rmux_name(session: Seq<char>) -> Seq<char> {
    session.map_values(
        |c: char|
            if c == '.' {
                '_'
            } else {
                c
            },
    )
}

/// `rmux_sdk::SessionName::new` refuses the empty name, replaces `:` and `.` by
/// `_`, and escapes control characters, backslashes and invisible characters. Of
/// these a session name holds dots alone.
#[verifier::external_body]
fn rmux_session_name(session: &SessionName) -> (r: Result<String, String>)
    requires
        session.valid(),
    ensures
        r is Ok,
        r->Ok_0@ == rmux_name(session@),
{
    rmux_sdk::SessionName::new(session.as_str())
        .map(|name| name.as_str().to_owned())
        .map_err(|error| error.to_string())
}

/// The name of a session in rmux. A name that rmux would change is refused.
pub fn to_rmux_session_name(session: &SessionName) -> (r: Result<String, BackendError>)
    ensures
        match r {
            Ok(name) => !session@.contains('.') && name@ == session@,
            Err(error) => session@.contains('.') && error@ == FailureView::Operation(
                "rmux would rewrite this session name"@,
            ),
        },
{
    proof {
        use_type_invariant(session);
    }
    let name = match rmux_session_name(session) {
        Ok(name) => name,
        Err(error) => return Err(operation_error(error.as_str(), "invalid rmux session name")),
    };
    if !crate::text::same_text(name.as_str(), session.as_str()) {
        proof {
            if !session@.contains('.') {
                assert forall|i: int| 0 <= i < session@.len() implies session@[i] != '.' by {
                    assert(session@.contains(session@[i]));
                }
                assert(name@ =~= session@);
            }
        }
        return Err(
            BackendError::Operation(
                SafeMessage::from_static("rmux would rewrite this session name"),
            ),
        );
    }
    proof {
        if session@.contains('.') {
            let i = choose|i: int| 0 <= i < session@.len() && session@[i] == '.';
            assert(name@[i] == '_');
        }
    }
    Ok(name)
}

/// The text of a pane id.
pub open spec fn pane_text(pane: nat) -> Seq<char> {
    seq!['%'] + crate::text::decimal_text(pane)
}

/// The pane id that a text writes.
pub open spec fn pane_number(text: Seq<char>) -> Option<nat> {
    if text.len() > 0 && text[0] == '%' {
        crate::text::number(text.drop_first(), 10, u32::MAX as nat)
    } else {
        None
    }
}

/// The first pane of a session.
pub fn rmux_backend_ref(session: &SessionName, pane_id: u32) -> (r: Result<
    BackendSessionRef,
    BackendError,
>)
    ensures
        r matches Ok(reference) && reference@ == (SessionRefView {
            kind: BackendKind::Rmux,
            session: session@,
            window: "0"@,
            pane: pane_text(pane_id as nat),
        }),
{
    let mut text = String::new();
    text.push('%');
    text.append(crate::text::decimal(pane_id as u64).as_str());
    proof {
        reveal_strlit("0");
        crate::text::lemma_byte_len("0"@);
        assert(text@ =~= pane_text(pane_id as nat));
        crate::text::lemma_decimal_len_u32(pane_id as nat);
        crate::text::lemma_byte_len(text@);
    }
    let window = match BackendWindowId::new("0") {
        Ok(window) => window,
        Err(error) => return Err(error),
    };
    match BackendPaneId::new(text.as_str()) {
        Ok(pane) => Ok(BackendSessionRef::new(BackendKind::Rmux, session.clone(), window, pane)),
        Err(error) => Err(error),
    }
}

/// The number of a pane id.
pub fn pane_id_from_backend(pane: &BackendPaneId) -> (r: Result<u32, BackendError>)
    ensures
        match r {
            Ok(number) => pane_number(pane@) == Some(number as nat),
            Err(error) => pane_number(pane@) is None && error@ == FailureView::Operation(
                "invalid rmux pane id"@,
            ),
        },
{
    let digits = match crate::text::strip_char(pane.as_str(), '%') {
        Some(digits) => digits,
        None => return Err(
            BackendError::Operation(SafeMessage::from_static("invalid rmux pane id")),
        ),
    };
    match crate::text::parse_u32(digits.as_str()) {
        Some(number) => Ok(number),
        None => Err(BackendError::Operation(SafeMessage::from_static("invalid rmux pane id"))),
    }
}

/// A pane id that was written is read back.
pub proof fn law_pane_id_round_trip(pane: nat)
    requires
        pane <= u32::MAX,
    ensures
        pane_number(pane_text(pane)) == Some(pane),
{
    assert(pane_text(pane).drop_first() =~= crate::text::decimal_text(pane));
    crate::text::law_decimal_round_trip(pane, u32::MAX as nat);
}

/// The session and pane that a reference names in rmux.
pub open spec fn named_pane(target: SessionRefView) -> Result<(Seq<char>, nat), FailureView> {
    if target.kind != BackendKind::Rmux {
        Err(FailureView::Operation("backend target is not an rmux pane"@))
    } else if target.session.contains('.') {
        Err(FailureView::Operation("rmux would rewrite this session name"@))
    } else {
        match pane_number(target.pane) {
            Some(pane) => Ok((target.session, pane)),
            None => Err(FailureView::Operation("invalid rmux pane id"@)),
        }
    }
}

/// Returns the session and pane that a reference names in rmux.
pub fn pane_target(target: &BackendSessionRef) -> (r: Result<(String, u32), BackendError>)
    ensures
        match r {
            Ok(named) => named_pane(target@) == Ok::<(Seq<char>, nat), FailureView>(
                (named.0@, named.1 as nat),
            ),
            Err(error) => named_pane(target@) == Err::<(Seq<char>, nat), FailureView>(error@),
        },
{
    if target.kind() != BackendKind::Rmux {
        return Err(
            BackendError::Operation(
                SafeMessage::from_static("backend target is not an rmux pane"),
            ),
        );
    }
    let name = match to_rmux_session_name(target.session()) {
        Ok(name) => name,
        Err(error) => return Err(error),
    };
    match pane_id_from_backend(target.pane()) {
        Ok(pane) => Ok((name, pane)),
        Err(error) => Err(error),
    }
}

/// The longest head of `s` that takes at most `limit` bytes.
pub open spec fn bounded_head(s: Seq<char>, limit: nat) -> Seq<char>
    decreases s.len(),
{
    if crate::text::byte_len(s) <= limit || s.len() == 0 {
        s
    } else {
        bounded_head(s.drop_last(), limit)
    }
}

/// The message that tells a failure: what was said, trimmed and cut to what fits
/// a safe message, or `fallback` where that is nothing.
pub open spec fn shortened(message: Seq<char>, fallback: Seq<char>) -> Seq<char> {
    let trimmed = crate::text::trimmed(message);
    bounded_head(
        if trimmed.len() == 0 {
            fallback
        } else {
            trimmed
        },
        crate::protocol::SAFE_MESSAGE_MAX_BYTES as nat,
    )
}

proof fn lemma_bounded_head(s: Seq<char>, limit: nat, i: int)
    requires
        0 <= i <= s.len(),
        crate::text::byte_len(s.take(i)) <= limit,
        i < s.len() ==> crate::text::byte_len(s.take(i + 1)) > limit,
    ensures
        bounded_head(s, limit) == s.take(i),
    decreases s.len(),
{
    if i == s.len() {
        assert(s.take(i) =~= s);
    } else {
        crate::text::lemma_byte_len_take(s, i + 1);
        let rest = s.drop_last();
        assert(rest.take(i) =~= s.take(i));
        if i < rest.len() {
            assert(rest.take(i + 1) =~= s.take(i + 1));
        }
        lemma_bounded_head(rest, limit, i);
    }
}

proof fn lemma_bounded_head_fits(s: Seq<char>, limit: nat)
    ensures
        crate::text::byte_len(bounded_head(s, limit)) <= limit,
        bounded_head(s, limit).len() <= s.len(),
        s.take(bounded_head(s, limit).len() as int) == bounded_head(s, limit),
    decreases s.len(),
{
    if crate::text::byte_len(s) <= limit || s.len() == 0 {
        assert(s.take(s.len() as int) =~= s);
    } else {
        lemma_bounded_head_fits(s.drop_last(), limit);
        let n = bounded_head(s, limit).len() as int;
        assert(s.drop_last().take(n) =~= s.take(n));
    }
}

/// What is told of a failure fits a safe message and is a head of what was said.
pub proof fn law_failure_message_is_a_safe_head(message: Seq<char>, fallback: Seq<char>)
    ensures
        crate::text::byte_len(shortened(message, fallback))
            <= crate::protocol::SAFE_MESSAGE_MAX_BYTES,
        crate::text::trimmed(message).len() > 0 ==> crate::text::trimmed(message).take(
            shortened(message, fallback).len() as int,
        ) == shortened(message, fallback),
{
    let trimmed = crate::text::trimmed(message);
    lemma_bounded_head_fits(
        if trimmed.len() == 0 {
            fallback
        } else {
            trimmed
        },
        crate::protocol::SAFE_MESSAGE_MAX_BYTES as nat,
    );
}

/// Returns the message that tells a failure.
pub fn safe_message(message: &str, fallback: &'static str) -> (r: SafeMessage)
    ensures
        r@ == shortened(message@, fallback@),
{
    let trimmed = crate::text::trim(message);
    let candidate = if trimmed.as_str().is_empty() {
        fallback
    } else {
        trimmed.as_str()
    };
    match SafeMessage::new(candidate) {
        Ok(message) => return message,
        Err(_) => {},
    }
    let chars = crate::text::chars_of(candidate);
    let ghost s = candidate@;
    let mut truncated = String::new();
    let mut i: usize = 0;
    proof {
        assert(s.take(0) =~= seq![]);
        assert(truncated@ =~= s.take(0));
        assert(crate::text::byte_len(s.take(0)) == 0);
    }
    while i < chars.len()
        invariant
            i <= chars@.len(),
            chars@ == s,
            truncated@ == s.take(i as int),
            crate::text::byte_len(s.take(i as int)) <= crate::protocol::SAFE_MESSAGE_MAX_BYTES,
            crate::text::byte_len(s) > crate::protocol::SAFE_MESSAGE_MAX_BYTES,
            s == candidate@,
            shortened(message@, fallback@) == bounded_head(
                s,
                crate::protocol::SAFE_MESSAGE_MAX_BYTES as nat,
            ),
        decreases chars@.len() - i,
    {
        let ghost before = truncated@;
        let mut longer = truncated.clone();
        longer.push(chars[i]);
        proof {
            assert(s.take(i + 1) =~= s.take(i as int).push(s[i as int]));
        }
        if longer.as_str().as_bytes().len() > crate::protocol::SAFE_MESSAGE_MAX_BYTES {
            proof {
                lemma_bounded_head(
                    s,
                    crate::protocol::SAFE_MESSAGE_MAX_BYTES as nat,
                    i as int,
                );
            }
            return match SafeMessage::new(truncated.as_str()) {
                Ok(message) => message,
                Err(_) => SafeMessage::from_static(fallback),
            };
        }
        truncated = longer;
        i += 1;
    }
    proof {
        assert(s.take(i as int) =~= s);
    }
    SafeMessage::from_static(fallback)
}

/// A failed operation.
pub fn operation_error(message: &str, fallback: &'static str) -> (r: BackendError)
    ensures
        r@ == FailureView::Operation(shortened(message@, fallback@)),
{
    BackendError::Operation(safe_message(message, fallback))
}

/// Tells whether a message says that a session or pane is not there.
pub open spec fn says_not_found(message: Seq<char>) -> bool {
    ||| crate::text::occurs_in(message, "session not found"@)
    ||| crate::text::occurs_in(message, "no such session"@)
    ||| crate::text::occurs_in(message, "pane not found"@)
}

/// The failure that an rmux error is, given its text and whether the connection failed.
pub open spec fn rmux_failure(message: Seq<char>, connection_failed: bool) -> FailureView {
    if says_not_found(message) {
        FailureView::SessionNotFound
    } else if connection_failed {
        FailureView::Io
    } else {
        FailureView::Operation(shortened(message, "rmux operation failed"@))
    }
}

/// The failure that an rmux error is, given its text and, where the connection
/// failed, why.
pub fn map_rmux_error(message: &str, transport: Option<std::io::Error>) -> (r: BackendError)
    ensures
        r@ == rmux_failure(message@, transport is Some),
{
    if crate::text::contains(message, "session not found") || crate::text::contains(
        message,
        "no such session",
    ) || crate::text::contains(message, "pane not found") {
        return BackendError::SessionNotFound;
    }
    match transport {
        Some(source) => BackendError::Io(source),
        None => operation_error(message, "rmux operation failed"),
    }
}

/// The shell that the `SHELL` variable names, or `/bin/sh` where it is absent or
/// empty.
pub open spec fn named_shell(shell: Option<Vec<u8>>) -> Result<Seq<char>, FailureView> {
    match shell {
        Some(path) if path@.len() > 0 => if vstd::utf8::valid_utf8(path@) {
            Ok(vstd::utf8::decode_utf8(path@))
        } else {
            Err(FailureView::UnsupportedInput)
        },
        _ => Ok("/bin/sh"@),
    }
}

/// Returns the shell that the `SHELL` variable names, or `/bin/sh` where it is absent or
/// empty.
pub fn inherited_shell_executable_from_env(shell: Option<Vec<u8>>) -> (r: Result<
    String,
    BackendError,
>)
    ensures
        match r {
            Ok(text) => named_shell(shell) == Ok::<Seq<char>, FailureView>(text@),
            Err(error) => named_shell(shell) == Err::<Seq<char>, FailureView>(error@),
        },
{
    match shell {
        Some(path) if !path.is_empty() => os_string_to_string(path),
        _ => Ok("/bin/sh".to_owned()),
    }
}

/// The command that runs a shell.
pub fn default_shell_command_from_executable(executable: &str) -> (r: Result<
    RmuxSessionCommand,
    BackendError,
>)
    ensures
        match r {
            Ok(command) => executable@.len() > 0 && command@ == seq![executable@],
            Err(error) => executable@.len() == 0 && error@ == FailureView::Operation(
                "rmux command executable must not be empty"@,
            ),
        },
{
    let none: Vec<Vec<u8>> = Vec::new();
    proof {
        vstd::utf8::encode_utf8_valid_utf8(executable@);
        vstd::utf8::encode_utf8_decode_utf8(executable@);
        crate::text::lemma_byte_len(executable@);
        assert(decoded(none@)->0 =~= seq![]);
        assert(seq![executable@] + seq![] =~= seq![executable@]);
    }
    RmuxSessionCommand::try_new(vstd::slice::slice_to_vec(executable.as_bytes()), none)
}

/// The variables of a created session.
pub open spec fn session_variables(shell: Seq<char>, version: Seq<char>) -> Seq<Seq<char>> {
    seq![
        "SHELL="@ + shell,
        "COLORTERM=truecolor"@,
        "CLICOLOR=1"@,
        "TERM_PROGRAM=termstage"@,
        "TERM_PROGRAM_VERSION="@ + version,
    ]
}

/// Returns the variables of a created session.
pub fn rmux_session_environment(shell_executable: &str, version: &str) -> (r: Vec<String>)
    ensures
        crate::text::texts(r@) == session_variables(shell_executable@, version@),
{
    let mut list: Vec<String> = Vec::new();
    list.push(String::from_str("SHELL=").concat(shell_executable));
    list.push("COLORTERM=truecolor".to_owned());
    list.push("CLICOLOR=1".to_owned());
    list.push("TERM_PROGRAM=termstage".to_owned());
    list.push(String::from_str("TERM_PROGRAM_VERSION=").concat(version));
    proof {
        assert(crate::text::texts(list@) =~= session_variables(shell_executable@, version@));
    }
    list
}

/// The names of `names` that can be the name of a session, in their order.
pub open spec fn session_names(names: Seq<Seq<char>>) -> Seq<Seq<char>> {
    names.filter(|name: Seq<char>| crate::protocol::valid_session_name(name))
}

/// Returns the sessions that rmux lists, without those that no session can be named after.
#[must_use]
pub fn listed_sessions(names: &Vec<String>) -> (r: Vec<SessionName>)
    ensures
        crate::protocol::name_texts(r@) == session_names(crate::text::texts(names@)),
{
    let ghost views = crate::text::texts(names@);
    let mut sessions: Vec<SessionName> = Vec::new();
    let mut i: usize = 0;
    proof {
        assert(crate::protocol::name_texts(sessions@) =~= session_names(views.take(0))) by {
            reveal(Seq::filter);
        }
    }
    while i < names.len()
        invariant
            i <= names@.len(),
            views == crate::text::texts(names@),
            crate::protocol::name_texts(sessions@) == session_names(views.take(i as int)),
        decreases names@.len() - i,
    {
        let ghost before = sessions@;
        proof {
            reveal(Seq::filter);
            let more = views.take(i + 1);
            assert(more.drop_last() =~= views.take(i as int));
            assert(more.last() == names@[i as int]@);
        }
        match SessionName::new(names[i].as_str()) {
            Ok(session) => {
                sessions.push(session);
                proof {
                    assert(crate::protocol::name_texts(sessions@) =~= crate::protocol::name_texts(
                        before,
                    ).push(session@));
                }
            },
            Err(_) => {},
        }
        i += 1;
    }
    proof {
        assert(views.take(names@.len() as int) =~= views);
    }
    sessions
}

/// What is known of a session by its first pane: its id, columns and rows.
pub open spec fn session_details(session: Seq<char>, pane: Option<(u32, u16, u16)>) -> Result<
    InfoView,
    FailureView,
> {
    match pane {
        None => Err(FailureView::SessionNotFound),
        Some((id, cols, rows)) => match crate::protocol::size_error(cols, rows) {
            Some(error) => Err(FailureView::Protocol(error)),
            None => Ok(
                InfoView {
                    session,
                    window: "0"@,
                    pane: pane_text(id as nat),
                    size: (cols, rows),
                },
            ),
        },
    }
}

/// Describes a session by the id, columns and rows of its first pane, where it has one.
pub fn session_info(session: SessionName, pane: Option<(u32, u16, u16)>) -> (r: Result<
    RmuxSessionInfo,
    BackendError,
>)
    ensures
        match r {
            Ok(info) => session_details(session@, pane) == Ok::<InfoView, FailureView>(info@),
            Err(error) => session_details(session@, pane) == Err::<InfoView, FailureView>(error@),
        },
{
    let (pane_id, cols, rows) = match pane {
        Some(pane) => pane,
        None => return Err(BackendError::SessionNotFound),
    };
    let size = match TerminalSize::new(cols, rows) {
        Ok(size) => size,
        Err(error) => return Err(BackendError::Protocol(error)),
    };
    let reference = match rmux_backend_ref(&session, pane_id) {
        Ok(reference) => reference,
        Err(error) => return Err(error),
    };
    let window = reference.window().clone();
    let pane = reference.pane().clone();
    Ok(RmuxSessionInfo::new(session, window, pane, size))
}

/// Describes the screen of a pane.
pub fn pane_screen(
    cols: u16,
    rows: u16,
    cursor: (u16, u16),
    cursor_visible: bool,
    lines: Vec<String>,
) -> (r: Result<BackendScreenSnapshot, BackendError>)
    ensures
        match r {
            Ok(screen) => {
                &&& screen@.size@ == (cols, rows)
                &&& screen@ == (SnapshotView {
                    size: screen@.size,
                    cursor_col: cursor.0,
                    cursor_row: cursor.1,
                    cursor_visible,
                    lines: crate::text::texts(lines@),
                })
                &&& crate::protocol::valid_terminal_size(cols, rows)
            },
            Err(error) => {
                &&& crate::protocol::size_error(cols, rows) is Some
                &&& error@ == FailureView::Protocol(
                    crate::protocol::size_error(cols, rows)->0,
                )
            },
        },
{
    match TerminalSize::new(cols, rows) {
        Ok(size) => Ok(
            BackendScreenSnapshot::new_with_cursor_visibility(
                size,
                cursor.0,
                cursor.1,
                cursor_visible,
                lines,
            ),
        ),
        Err(error) => Err(BackendError::Protocol(error)),
    }
}

/// Tells whether a session has attached clients, by the clients of each session.
pub open spec fn has_clients(clients: Seq<(String, u64)>, session: Seq<char>) -> bool {
    exists|i: int|
        0 <= i < clients.len() && (#[trigger] clients[i]).0@ == session && clients[i].1 > 0
}

/// Returns whether a session has attached clients.
pub fn has_attached_clients(clients: &Vec<(String, u64)>, session: &SessionName) -> (r: bool)
    ensures
        r == has_clients(clients@, session@),
{
    let mut i: usize = 0;
    while i < clients.len()
        invariant
            i <= clients@.len(),
            forall|k: int|
                0 <= k < i ==> !((#[trigger] clients@[k]).0@ == session@ && clients@[k].1 > 0),
        decreases clients@.len() - i,
    {
        if crate::text::same_text(clients[i].0.as_str(), session.as_str()) && clients[i].1 > 0 {
            return true;
        }
        i += 1;
    }
    false
}

/// A new session needs a name that is free.
pub fn require_absent(exists: bool) -> (r: Result<(), BackendError>)
    ensures
        match r {
            Ok(_) => !exists,
            Err(error) => exists && error@ == FailureView::Operation(
                "rmux session already exists"@,
            ),
        },
{
    if exists {
        return Err(
            BackendError::Operation(SafeMessage::from_static("rmux session already exists")),
        );
    }
    Ok(())
}

/// rmux cannot scroll.
pub fn scroll_unsupported() -> (r: BackendError)
    ensures
        r@ == FailureView::Operation("rmux backend does not expose a scroll primitive"@),
{
    BackendError::Operation(
        SafeMessage::from_static("rmux backend does not expose a scroll primitive"),
    )
}

/// As much is told of a failure as fits 512 bytes: all of a short message, and of a longer
/// one as many characters as go in. Where nothing was said, the fallback is told.
pub proof fn law_failure_message_is_as_long_as_fits(message: Seq<char>, fallback: Seq<char>)
    ensures
        ({
            let said = crate::text::trimmed(message);
            let told = shortened(message, fallback);
            &&& said.len() > 0 && vstd::utf8::encode_utf8(said).len() <= 512 ==> told == said
            &&& said.len() > 0 && told.len() < said.len() ==> vstd::utf8::encode_utf8(
                said.take(told.len() as int + 1),
            ).len() > 512
            &&& said.len() == 0 && vstd::utf8::encode_utf8(fallback).len() <= 512 ==> told
                == fallback
        }),
{
    let said = crate::text::trimmed(message);
    if said.len() > 0 {
        lemma_bounded_head_is_longest(said, 512);
    }
}

proof fn lemma_bounded_head_is_longest(s: Seq<char>, limit: nat)
    ensures
        bounded_head(s, limit).len() <= s.len(),
        bounded_head(s, limit).len() < s.len() ==> crate::text::byte_len(
            s.take(bounded_head(s, limit).len() as int + 1),
        ) > limit,
    decreases s.len(),
{
    if crate::text::byte_len(s) > limit && s.len() > 0 {
        let rest = s.drop_last();
        lemma_bounded_head_is_longest(rest, limit);
        let n = bounded_head(rest, limit).len() as int;
        if n < rest.len() {
            assert(rest.take(n + 1) =~= s.take(n + 1));
        } else {
            assert(s.take(n + 1) =~= s);
        }
    }
}

/// A message that says, anywhere, that a session or a pane is not there tells just that;
/// another is a failed connection where the connection failed, and else is told itself.
pub proof fn law_rmux_failures_are_told_apart(
    before: Seq<char>,
    after: Seq<char>,
    message: Seq<char>,
    connection_failed: bool,
)
    ensures
        rmux_failure(before + "session not found"@ + after, connection_failed)
            == FailureView::SessionNotFound,
        rmux_failure(before + "no such session"@ + after, connection_failed)
            == FailureView::SessionNotFound,
        rmux_failure(before + "pane not found"@ + after, connection_failed)
            == FailureView::SessionNotFound,
        !crate::text::occurs_in(message, "session not found"@) && !crate::text::occurs_in(
            message,
            "no such session"@,
        ) && !crate::text::occurs_in(message, "pane not found"@) ==> {
            &&& rmux_failure(message, true) == FailureView::Io
            &&& rmux_failure(message, false) == FailureView::Operation(
                shortened(message, "rmux operation failed"@),
            )
        },
{
    lemma_part_occurs(before, "session not found"@, after);
    lemma_part_occurs(before, "no such session"@, after);
    lemma_part_occurs(before, "pane not found"@, after);
}

proof fn lemma_part_occurs(before: Seq<char>, part: Seq<char>, after: Seq<char>)
    ensures
        crate::text::occurs_in(before + part + after, part),
{
    let s = before + part + after;
    assert forall|k: int| 0 <= k < part.len() implies s[before.len() + k] == #[trigger] part[k] by {}
    crate::text::law_text_occurs_where_it_stands(s, part, before.len() as int);
}

/// The named shell is taken as it is, and `/bin/sh` where none is named.
pub proof fn law_shell_is_the_named_one(shell: Vec<u8>, text: Seq<char>)
    ensures
        text.len() > 0 && shell@ == vstd::utf8::encode_utf8(text) ==> named_shell(Some(shell))
            == Ok::<Seq<char>, FailureView>(text),
        shell@.len() == 0 ==> named_shell(Some(shell)) == Ok::<Seq<char>, FailureView>("/bin/sh"@),
        named_shell(None) == Ok::<Seq<char>, FailureView>("/bin/sh"@),
{
    vstd::utf8::encode_utf8_valid_utf8(text);
    vstd::utf8::encode_utf8_decode_utf8(text);
    crate::text::lemma_byte_len(text);
}

/// A reference to a pane of rmux is found again by the session and the pane that it was made
/// of; a pane of another backend is not looked for.
pub proof fn law_reference_finds_its_pane(session: Seq<char>, pane: u32, window: Seq<char>)
    ensures
        !session.contains('.') ==> named_pane(
            SessionRefView {
                kind: BackendKind::Rmux,
                session,
                window,
                pane: pane_text(pane as nat),
            },
        ) == Ok::<(Seq<char>, nat), FailureView>((session, pane as nat)),
        session.contains('.') ==> named_pane(
            SessionRefView {
                kind: BackendKind::Rmux,
                session,
                window,
                pane: pane_text(pane as nat),
            },
        ) is Err,
        named_pane(
            SessionRefView {
                kind: BackendKind::Tmux,
                session,
                window,
                pane: pane_text(pane as nat),
            },
        ) is Err,
{
    law_pane_id_round_trip(pane as nat);
}

/// A command starts with its executable, and its arguments follow in order.
pub proof fn law_command_keeps_its_arguments(
    executable: Seq<char>,
    args: Seq<Vec<u8>>,
    texts: Seq<Seq<char>>,
)
    requires
        executable.len() > 0,
        args.len() == texts.len(),
        forall|i: int|
            0 <= i < args.len() ==> (#[trigger] args[i])@ == vstd::utf8::encode_utf8(texts[i]),
    ensures
        command_argv(vstd::utf8::encode_utf8(executable), args) == Ok::<
            Seq<Seq<char>>,
            FailureView,
        >(seq![executable] + texts),
        command_argv(seq![], args) is Err,
{
    vstd::utf8::encode_utf8_valid_utf8(executable);
    vstd::utf8::encode_utf8_decode_utf8(executable);
    crate::text::lemma_byte_len(executable);
    assert forall|i: int| 0 <= i < args.len() implies vstd::utf8::valid_utf8((#[trigger] args[i])@)
        && vstd::utf8::decode_utf8(args[i]@) == texts[i] by {
        vstd::utf8::encode_utf8_valid_utf8(texts[i]);
        vstd::utf8::encode_utf8_decode_utf8(texts[i]);
    }
    assert(decoded(args)->0 =~= texts);
}

/// A created session is given its shell, and besides that the variables that a session of
/// tmux is given.
pub proof fn law_sessions_get_the_same_variables(shell: Seq<char>, version: Seq<char>, i: int)
    requires
        0 <= i < 4,
    ensures
        session_variables(shell, version).len() == 5,
        session_variables(shell, version)[0] == "SHELL="@ + shell,
        session_variables(shell, version)[i + 1] == crate::tmux_commands::session_settings(
            version,
        )[2 * i + 1],
{
}

/// The sessions are those of the names that can name one, in their order.
pub proof fn law_listed_names_are_kept_in_order(
    names: Seq<Seq<char>>,
    name: Seq<char>,
)
    ensures
        session_names(seq![]) == Seq::<Seq<char>>::empty(),
        crate::protocol::valid_session_name(name) ==> session_names(names.push(name))
            == session_names(names).push(name),
        !crate::protocol::valid_session_name(name) ==> session_names(names.push(name))
            == session_names(names),
{
    reveal(Seq::filter);
    assert(names.push(name).drop_last() =~= names);
}

/// A session is described by the id and the size of its first pane, and is not there where
/// it has none.
pub proof fn law_session_is_described_by_its_pane(
    session: Seq<char>,
    id: u32,
    cols: u16,
    rows: u16,
)
    ensures
        session_details(session, None) == Err::<InfoView, FailureView>(FailureView::SessionNotFound),
        match session_details(session, Some((id, cols, rows))) {
            Ok(info) => {
                &&& 20 <= cols <= 300
                &&& 5 <= rows <= 120
                &&& info.session == session
                &&& info.size == (cols, rows)
                &&& info.pane == seq!['%'] + crate::text::decimal_text(id as nat)
                &&& info.window == "0"@
            },
            Err(_) => !(20 <= cols <= 300 && 5 <= rows <= 120),
        },
{
}

/// A session has clients where its own count is not zero; the clients of other sessions do
/// not count.
pub proof fn law_clients_are_counted_by_session(
    clients: Seq<(String, u64)>,
    other: (String, u64),
    session: Seq<char>,
)
    ensures
        !has_clients(seq![], session),
        other.0@ == session && other.1 >= 1 ==> has_clients(clients.push(other), session),
        other.0@ != session || other.1 == 0 ==> has_clients(clients.push(other), session)
            == has_clients(clients, session),
{
    let more = clients.push(other);
    assert(more[clients.len() as int] == other);
    if has_clients(clients, session) {
        let i = choose|i: int|
            0 <= i < clients.len() && (#[trigger] clients[i]).0@ == session && clients[i].1 > 0;
        assert(more[i] == clients[i]);
    }
    if has_clients(more, session) {
        let i = choose|i: int|
            0 <= i < more.len() && (#[trigger] more[i]).0@ == session && more[i].1 > 0;
        if i < clients.len() {
            assert(more[i] == clients[i]);
        }
    }
}

/// What cannot be done in rmux is refused, and the failure says why: a pane of another
/// backend, a session name that rmux would rewrite, a pane id that is none, or a command
/// without an executable.
pub proof fn law_unfit_requests_are_told_why(target: SessionRefView, args: Seq<Vec<u8>>)
    ensures
        target.kind != BackendKind::Rmux ==> named_pane(target) == Err::<
            (Seq<char>, nat),
            FailureView,
        >(FailureView::Operation("backend target is not an rmux pane"@)),
        target.kind == BackendKind::Rmux && target.session.contains('.') ==> named_pane(target)
            == Err::<(Seq<char>, nat), FailureView>(
            FailureView::Operation("rmux would rewrite this session name"@),
        ),
        target.kind == BackendKind::Rmux && !target.session.contains('.') && (target.pane.len() == 0
            || target.pane[0] != '%') ==> named_pane(target) == Err::<
            (Seq<char>, nat),
            FailureView,
        >(FailureView::Operation("invalid rmux pane id"@)),
        command_argv(seq![], args) == Err::<Seq<Seq<char>>, FailureView>(
            FailureView::Operation("rmux command executable must not be empty"@),
        ),
{
    let none = Seq::<char>::empty();
    vstd::utf8::encode_utf8_valid_utf8(none);
    assert(vstd::utf8::encode_utf8(none) =~= Seq::<u8>::empty());
}

/// A command with a word that is no text is not supported.
pub proof fn law_words_of_a_command_are_texts(executable: Seq<u8>, args: Seq<Vec<u8>>, i: int)
    requires
        0 <= i < args.len(),
    ensures
        !vstd::utf8::valid_utf8(executable) ==> command_argv(executable, args) == Err::<
            Seq<Seq<char>>,
            FailureView,
        >(FailureView::UnsupportedInput),
        executable.len() > 0 && !vstd::utf8::valid_utf8(args[i]@) ==> command_argv(executable, args)
            == Err::<Seq<Seq<char>>, FailureView>(FailureView::UnsupportedInput),
{
}

} // verus!
