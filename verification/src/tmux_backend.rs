//! tmux commands and what tmux answers.

use bytes::Bytes;
use vstd::prelude::*;

use crate::backend::{
    BackendError, BackendKind, BackendPaneId, BackendScreenSnapshot,
    BackendSessionRef, BackendWindowId, FailureView, SessionRefView, SnapshotView,
};
use crate::protocol::{ProtocolError, SafeMessage, SessionName, TerminalSize};

verus! {

/// The contents of several string slices.
pub open spec fn slices(list: Seq<&str>) -> Seq<Seq<char>> {
    list.map_values(|item: &str| item@)
}

/// The arguments `list` as owned texts.
pub(crate) fn args(list: &[&str]) -> (r: Vec<String>)
    ensures
        crate::text::texts(r@) == slices(list@),
{
    let mut out: Vec<String> = Vec::new();
    let mut i: usize = 0;
    while i < list.len()
        invariant
            i <= list@.len(),
            crate::text::texts(out@) == slices(list@.take(i as int)),
        decreases list@.len() - i,
    {
        let ghost before = out@;
        out.push(list[i].to_owned());
        i += 1;
        proof {
            assert(list@.take(i as int) =~= list@.take(i - 1).push(list@[i - 1]));
            assert(crate::text::texts(out@) =~= crate::text::texts(before).push(list@[i - 1]@));
            assert(slices(list@.take(i as int)) =~= slices(list@.take(i - 1)).push(
                list@[i - 1]@,
            ));
        }
    }
    proof {
        assert(list@.take(i as int) =~= list@);
    }
    out
}

/// What a finished tmux process left.
#[derive(Debug, Clone, PartialEq, Eq)]
pub struct TmuxOutput {
    /// Whether the process succeeded.
    pub success: bool,
    /// Standard output.
    pub stdout: Vec<u8>,
    /// Standard error.
    pub stderr: Vec<u8>,
}

/// Command used to start a new tmux session pane, each part as the bytes that
/// the operating system takes.
#[derive(Debug, Clone, PartialEq, Eq)]
pub struct TmuxSessionCommand {
    executable: Vec<u8>,
    args: Vec<Vec<u8>>,
}

impl TmuxSessionCommand {
    /// The bytes of the executable.
    pub closed spec fn executable_bytes(&self) -> Seq<u8> {
        self.executable@
    }

    /// The arguments.
    pub closed spec fn arg_list(&self) -> Seq<Vec<u8>> {
        self.args@
    }

    /// Creates a tmux session command.
    #[must_use]
    pub fn new(executable: Vec<u8>, args: Vec<Vec<u8>>) -> (r: Self)
        ensures
            r.executable_bytes() == executable@,
            r.arg_list() == args@,
    {
        TmuxSessionCommand { executable, args }
    }

    /// Returns the executable.
    #[must_use]
    pub fn executable(&self) -> (r: &[u8])
        ensures
            r@ == self.executable_bytes(),
    {
        self.executable.as_slice()
    }

    /// Returns the command arguments.
    #[must_use]
    pub fn args(&self) -> (r: &[Vec<u8>])
        ensures
            r@ == self.arg_list(),
    {
        self.args.as_slice()
    }
}

/// The contents of session details.
pub struct InfoView {
    /// Session name.
    pub session: Seq<char>,
    /// Window id.
    pub window: Seq<char>,
    /// Pane id.
    pub pane: Seq<char>,
    /// Columns and rows of the pane.
    pub size: (u16, u16),
}

/// tmux session details used by supervisor CLI commands.
#[derive(Debug, Clone, PartialEq, Eq)]
pub struct TmuxSessionInfo {
    session: SessionName,
    window: BackendWindowId,
    pane: BackendPaneId,
    size: TerminalSize,
}

impl View for TmuxSessionInfo {
    type V = InfoView;

    closed spec fn view(&self) -> InfoView {
        InfoView {
            session: self.session@,
            window: self.window@,
            pane: self.pane@,
            size: self.size@,
        }
    }
}

impl TmuxSessionInfo {
    /// Creates tmux session details.
    #[must_use]
    pub fn new(
        session: SessionName,
        window: BackendWindowId,
        pane: BackendPaneId,
        size: TerminalSize,
    ) -> (r: Self)
        ensures
            r@ == (InfoView {
                session: session@,
                window: window@,
                pane: pane@,
                size: size@,
            }),
    {
        TmuxSessionInfo { session, window, pane, size }
    }

    /// Returns the session name.
    #[must_use]
    pub fn session(&self) -> (r: &SessionName)
        ensures
            r@ == self@.session,
    {
        &self.session
    }

    /// Returns the active window id.
    #[must_use]
    pub fn window(&self) -> (r: &BackendWindowId)
        ensures
            r@ == self@.window,
    {
        &self.window
    }

    /// Returns the active pane id.
    #[must_use]
    pub fn pane(&self) -> (r: &BackendPaneId)
        ensures
            r@ == self@.pane,
    {
        &self.pane
    }

    /// Returns the active pane size.
    #[must_use]
    pub fn size(&self) -> (r: TerminalSize)
        ensures
            r@ == self@.size,
    {
        self.size
    }
}

/// A failed operation with a fixed message.
fn operation_error(message: &'static str) -> (r: BackendError)
    ensures
        r@ == FailureView::Operation(message@),
{
    BackendError::Operation(SafeMessage::from_static(message))
}

/// The message for a failed process: what it wrote, trimmed, or `fallback` where
/// that is nothing. A text that does not fit a safe message is an error itself.
pub open spec fn failure_message(text: Seq<char>, fallback: Seq<char>) -> Result<
    Seq<char>,
    FailureView,
> {
    let trimmed = crate::text::trimmed(text);
    if trimmed.len() == 0 {
        Ok(fallback)
    } else if crate::backend::fits_safe_message(trimmed) {
        Ok(trimmed)
    } else {
        Err(FailureView::Protocol(ProtocolError::SafeMessageTooLong))
    }
}

/// The failure of a process that wrote `stderr`.
pub open spec fn process_failure(stderr: Seq<u8>, fallback: Seq<char>) -> FailureView {
    if !vstd::utf8::valid_utf8(stderr) {
        FailureView::Utf8
    } else {
        match failure_message(vstd::utf8::decode_utf8(stderr), fallback) {
            Ok(message) => FailureView::Operation(message),
            Err(failure) => failure,
        }
    }
}

/// Returns the message for a failed process.
pub fn safe_trimmed_message(text: &str, fallback: &'static str) -> (r: Result<
    SafeMessage,
    BackendError,
>)
    ensures
        match r {
            Ok(message) => failure_message(text@, fallback@) == Ok::<Seq<char>, FailureView>(
                message@,
            ),
            Err(error) => failure_message(text@, fallback@) == Err::<Seq<char>, FailureView>(
                error@,
            ),
        },
{
    let trimmed = crate::text::trim(text);
    if trimmed.as_str().is_empty() {
        return Ok(SafeMessage::from_static(fallback));
    }
    match SafeMessage::new(trimmed.as_str()) {
        Ok(message) => Ok(message),
        Err(error) => Err(BackendError::Protocol(error)),
    }
}

/// Reads bytes as text.
fn decode(bytes: Vec<u8>) -> (r: Result<String, BackendError>)
    ensures
        match r {
            Ok(text) => vstd::utf8::valid_utf8(bytes@) && text@ == vstd::utf8::decode_utf8(
                bytes@,
            ),
            Err(error) => !vstd::utf8::valid_utf8(bytes@) && error@ == FailureView::Utf8,
        },
{
    match String::from_utf8(bytes) {
        Ok(text) => {
            proof {
                vstd::utf8::encode_utf8_decode_utf8(text@);
            }
            Ok(text)
        },
        Err(error) => Err(BackendError::Utf8(error)),
    }
}

/// The failure of a process.
fn output_error(stderr: Vec<u8>, fallback: &'static str) -> (r: BackendError)
    ensures
        r@ == process_failure(stderr@, fallback@),
{
    let text = match decode(stderr) {
        Ok(text) => text,
        Err(error) => return error,
    };
    match safe_trimmed_message(text.as_str(), fallback) {
        Ok(message) => BackendError::Operation(message),
        Err(error) => error,
    }
}

/// Judges a process whose output does not matter.
pub fn ensure_success(output: TmuxOutput, fallback: &'static str) -> (r: Result<(), BackendError>)
    ensures
        match r {
            Ok(_) => output.success,
            Err(error) => !output.success && error@ == process_failure(
                output.stderr@,
                fallback@,
            ),
        },
{
    if output.success {
        Ok(())
    } else {
        Err(output_error(output.stderr, fallback))
    }
}

/// The output of a process that succeeded.
pub open spec fn output_text(output: TmuxOutput, fallback: Seq<char>) -> Result<
    Seq<char>,
    FailureView,
> {
    if !output.success {
        Err(process_failure(output.stderr@, fallback))
    } else if !vstd::utf8::valid_utf8(output.stdout@) {
        Err(FailureView::Utf8)
    } else {
        Ok(vstd::utf8::decode_utf8(output.stdout@))
    }
}

/// Returns the output of a process that succeeded.
pub fn success_stdout(output: TmuxOutput, fallback: &'static str) -> (r: Result<
    String,
    BackendError,
>)
    ensures
        match r {
            Ok(text) => output_text(output, fallback@) == Ok::<Seq<char>, FailureView>(text@),
            Err(error) => output_text(output, fallback@) == Err::<Seq<char>, FailureView>(error@),
        },
{
    if !output.success {
        return Err(output_error(output.stderr, fallback));
    }
    decode(output.stdout)
}

/// The number that tmux reports in `s`.
pub open spec fn reported_number(s: Seq<char>) -> Result<u16, FailureView> {
    match crate::text::number(s, 10, u16::MAX as nat) {
        Some(value) => Ok(value as u16),
        None => Err(FailureView::Operation("tmux reported invalid numeric value"@)),
    }
}

/// Reads a number that tmux reports.
pub fn parse_u16(value: &str) -> (r: Result<u16, BackendError>)
    ensures
        match r {
            Ok(number) => reported_number(value@) == Ok::<u16, FailureView>(number),
            Err(error) => reported_number(value@) == Err::<u16, FailureView>(error@),
        },
{
    match crate::text::parse_u16(value) {
        Some(number) => Ok(number),
        None => Err(operation_error("tmux reported invalid numeric value")),
    }
}

/// The size that tmux reports in two fields.
pub open spec fn reported_size(cols: Seq<char>, rows: Seq<char>) -> Result<
    (u16, u16),
    FailureView,
> {
    match reported_number(cols) {
        Err(failure) => Err(failure),
        Ok(cols) => match reported_number(rows) {
            Err(failure) => Err(failure),
            Ok(rows) => match crate::protocol::size_error(cols, rows) {
                Some(error) => Err(FailureView::Protocol(error)),
                None => Ok((cols, rows)),
            },
        },
    }
}

fn parse_size(cols: &str, rows: &str) -> (r: Result<TerminalSize, BackendError>)
    ensures
        match r {
            Ok(size) => reported_size(cols@, rows@) == Ok::<(u16, u16), FailureView>(size@),
            Err(error) => reported_size(cols@, rows@) == Err::<(u16, u16), FailureView>(error@),
        },
{
    let cols = match parse_u16(cols) {
        Ok(cols) => cols,
        Err(error) => return Err(error),
    };
    let rows = match parse_u16(rows) {
        Ok(rows) => rows,
        Err(error) => return Err(error),
    };
    match TerminalSize::new(cols, rows) {
        Ok(size) => Ok(size),
        Err(error) => Err(BackendError::Protocol(error)),
    }
}

/// The session details that tmux reports: five fields with tabs between them.
pub open spec fn reported_info(text: Seq<char>) -> Result<InfoView, FailureView> {
    let parts = crate::text::pieces(
        crate::text::without_trailing(text, crate::text::space()),
        '\t',
    );
    if parts.len() < 2 {
        Err(FailureView::Operation("tmux did not report window id"@))
    } else if parts.len() < 3 {
        Err(FailureView::Operation("tmux did not report pane id"@))
    } else if parts.len() < 4 {
        Err(FailureView::Operation("tmux did not report pane width"@))
    } else if parts.len() < 5 {
        Err(FailureView::Operation("tmux did not report pane height"@))
    } else if parts.len() > 5 {
        Err(FailureView::Operation("tmux reported unexpected session details"@))
    } else if !crate::protocol::valid_session_name(parts[0]) {
        Err(FailureView::Protocol(ProtocolError::InvalidSessionName))
    } else if !crate::backend::fits_safe_message(parts[1]) || !crate::backend::fits_safe_message(
        parts[2],
    ) {
        Err(FailureView::Protocol(ProtocolError::SafeMessageTooLong))
    } else {
        match reported_size(parts[3], parts[4]) {
            Ok(size) => Ok(
                InfoView { session: parts[0], window: parts[1], pane: parts[2], size },
            ),
            Err(failure) => Err(failure),
        }
    }
}

/// Reads the session details that tmux reports.
pub fn parse_session_info(text: &str) -> (r: Result<TmuxSessionInfo, BackendError>)
    ensures
        match r {
            Ok(info) => reported_info(text@) == Ok::<InfoView, FailureView>(info@),
            Err(error) => reported_info(text@) == Err::<InfoView, FailureView>(error@),
        },
{
    let trimmed = crate::text::trim_end(text);
    let parts = crate::text::split(trimmed.as_str(), '\t');
    let ghost views = crate::text::texts(parts@);
    if parts.len() < 2 {
        return Err(operation_error("tmux did not report window id"));
    }
    if parts.len() < 3 {
        return Err(operation_error("tmux did not report pane id"));
    }
    if parts.len() < 4 {
        return Err(operation_error("tmux did not report pane width"));
    }
    if parts.len() < 5 {
        return Err(operation_error("tmux did not report pane height"));
    }
    if parts.len() > 5 {
        return Err(operation_error("tmux reported unexpected session details"));
    }
    proof {
        assert(views[0] == parts@[0]@);
        assert(views[1] == parts@[1]@);
        assert(views[2] == parts@[2]@);
        assert(views[3] == parts@[3]@);
        assert(views[4] == parts@[4]@);
    }
    let session = match SessionName::new(parts[0].as_str()) {
        Ok(session) => session,
        Err(error) => return Err(BackendError::Protocol(error)),
    };
    let window = match BackendWindowId::new(parts[1].as_str()) {
        Ok(window) => window,
        Err(error) => return Err(error),
    };
    let pane = match BackendPaneId::new(parts[2].as_str()) {
        Ok(pane) => pane,
        Err(error) => return Err(error),
    };
    match parse_size(parts[3].as_str(), parts[4].as_str()) {
        Ok(size) => Ok(TmuxSessionInfo::new(session, window, pane, size)),
        Err(error) => Err(error),
    }
}

/// The pane that tmux reports for a session: a window id and a pane id.
pub open spec fn reported_pane(session: Seq<char>, text: Seq<char>) -> Result<
    SessionRefView,
    FailureView,
> {
    let parts = crate::text::fields(text);
    if parts.len() < 1 {
        Err(FailureView::Operation("tmux did not report window id"@))
    } else if parts.len() < 2 {
        Err(FailureView::Operation("tmux did not report pane id"@))
    } else if parts.len() > 2 {
        Err(FailureView::Operation("tmux reported unexpected pane identity"@))
    } else if !crate::backend::fits_safe_message(parts[0]) || !crate::backend::fits_safe_message(
        parts[1],
    ) {
        Err(FailureView::Protocol(ProtocolError::SafeMessageTooLong))
    } else {
        Ok(
            SessionRefView {
                kind: BackendKind::Tmux,
                session,
                window: parts[0],
                pane: parts[1],
            },
        )
    }
}

/// Reads the pane that tmux reports for a session.
pub fn parse_reference(session: &SessionName, text: &str) -> (r: Result<
    BackendSessionRef,
    BackendError,
>)
    ensures
        match r {
            Ok(reference) => reported_pane(session@, text@) == Ok::<SessionRefView, FailureView>(
                reference@,
            ),
            Err(error) => reported_pane(session@, text@) == Err::<SessionRefView, FailureView>(
                error@,
            ),
        },
{
    let parts = crate::text::split_ascii_whitespace(text);
    let ghost views = crate::text::texts(parts@);
    if parts.len() < 1 {
        return Err(operation_error("tmux did not report window id"));
    }
    if parts.len() < 2 {
        return Err(operation_error("tmux did not report pane id"));
    }
    if parts.len() > 2 {
        return Err(operation_error("tmux reported unexpected pane identity"));
    }
    proof {
        assert(views[0] == parts@[0]@);
        assert(views[1] == parts@[1]@);
    }
    let window = match BackendWindowId::new(parts[0].as_str()) {
        Ok(window) => window,
        Err(error) => return Err(error),
    };
    match BackendPaneId::new(parts[1].as_str()) {
        Ok(pane) => Ok(BackendSessionRef::new(BackendKind::Tmux, session.clone(), window, pane)),
        Err(error) => Err(error),
    }
}

/// Size and cursor of a pane.
#[derive(Debug, Clone, Copy, PartialEq, Eq, Structural)]
pub struct PaneMetadata {
    /// Pane size.
    pub size: TerminalSize,
    /// Cursor column.
    pub cursor_col: u16,
    /// Cursor row.
    pub cursor_row: u16,
    /// Whether the cursor is shown.
    pub cursor_visible: bool,
}

/// The contents of [`PaneMetadata`].
pub struct MetadataView {
    /// Columns and rows.
    pub size: (u16, u16),
    /// Cursor column.
    pub cursor_col: u16,
    /// Cursor row.
    pub cursor_row: u16,
    /// Whether the cursor is shown.
    pub cursor_visible: bool,
}

impl View for PaneMetadata {
    type V = MetadataView;

    open spec fn view(&self) -> MetadataView {
        MetadataView {
            size: self.size@,
            cursor_col: self.cursor_col,
            cursor_row: self.cursor_row,
            cursor_visible: self.cursor_visible,
        }
    }
}

/// The size and cursor that tmux reports: four numbers, and a fifth that tells
/// whether the cursor is shown. Without it the cursor is shown.
pub open spec fn reported_metadata(text: Seq<char>) -> Result<MetadataView, FailureView> {
    let parts = crate::text::fields(text);
    if parts.len() < 1 {
        Err(FailureView::Operation("tmux did not report pane width"@))
    } else if parts.len() < 2 {
        Err(FailureView::Operation("tmux did not report pane height"@))
    } else if parts.len() < 3 {
        Err(FailureView::Operation("tmux did not report cursor column"@))
    } else if parts.len() < 4 {
        Err(FailureView::Operation("tmux did not report cursor row"@))
    } else {
        match (
            reported_size(parts[0], parts[1]),
            reported_number(parts[2]),
            reported_number(parts[3]),
            if parts.len() > 4 {
                reported_number(parts[4])
            } else {
                Ok(1)
            },
        ) {
            (Ok(size), Ok(cursor_col), Ok(cursor_row), Ok(flag)) => Ok(
                MetadataView { size, cursor_col, cursor_row, cursor_visible: flag > 0 },
            ),
            (Err(failure), _, _, _) => Err(failure),
            (_, Err(failure), _, _) => Err(failure),
            (_, _, Err(failure), _) => Err(failure),
            (_, _, _, Err(failure)) => Err(failure),
        }
    }
}

/// Reads the size and cursor that tmux reports.
pub fn parse_metadata(text: &str) -> (r: Result<PaneMetadata, BackendError>)
    ensures
        match r {
            Ok(metadata) => reported_metadata(text@) == Ok::<MetadataView, FailureView>(
                metadata@,
            ),
            Err(error) => reported_metadata(text@) == Err::<MetadataView, FailureView>(error@),
        },
{
    let parts = crate::text::split_ascii_whitespace(text);
    let ghost views = crate::text::texts(parts@);
    if parts.len() < 1 {
        return Err(operation_error("tmux did not report pane width"));
    }
    if parts.len() < 2 {
        return Err(operation_error("tmux did not report pane height"));
    }
    if parts.len() < 3 {
        return Err(operation_error("tmux did not report cursor column"));
    }
    if parts.len() < 4 {
        return Err(operation_error("tmux did not report cursor row"));
    }
    proof {
        assert(views[0] == parts@[0]@);
        assert(views[1] == parts@[1]@);
        assert(views[2] == parts@[2]@);
        assert(views[3] == parts@[3]@);
    }
    let size = match parse_size(parts[0].as_str(), parts[1].as_str()) {
        Ok(size) => size,
        Err(error) => return Err(error),
    };
    let cursor_col = match parse_u16(parts[2].as_str()) {
        Ok(cursor_col) => cursor_col,
        Err(error) => return Err(error),
    };
    let cursor_row = match parse_u16(parts[3].as_str()) {
        Ok(cursor_row) => cursor_row,
        Err(error) => return Err(error),
    };
    let cursor_visible = if parts.len() > 4 {
        proof {
            assert(views[4] == parts@[4]@);
        }
        match parse_u16(parts[4].as_str()) {
            Ok(flag) => flag > 0,
            Err(error) => return Err(error),
        }
    } else {
        true
    };
    Ok(PaneMetadata { size, cursor_col, cursor_row, cursor_visible })
}

/// The screen with this size and cursor that tmux captured as `text`.
pub fn captured_screen(metadata: PaneMetadata, text: &str) -> (r: BackendScreenSnapshot)
    ensures
        r@ == (SnapshotView {
            size: metadata.size,
            cursor_col: metadata.cursor_col,
            cursor_row: metadata.cursor_row,
            cursor_visible: metadata.cursor_visible,
            lines: crate::text::text_lines(text@),
        }),
{
    BackendScreenSnapshot::new_with_cursor_visibility(
        metadata.size,
        metadata.cursor_col,
        metadata.cursor_row,
        metadata.cursor_visible,
        crate::text::lines(text),
    )
}

/// Whether tmux reports attached clients.
pub open spec fn reported_clients(text: Seq<char>) -> Result<bool, FailureView> {
    match reported_number(crate::text::trimmed(text)) {
        Ok(clients) => Ok(clients > 0),
        Err(failure) => Err(failure),
    }
}

/// Reads whether tmux reports attached clients.
pub fn parse_attached(text: &str) -> (r: Result<bool, BackendError>)
    ensures
        match r {
            Ok(attached) => reported_clients(text@) == Ok::<bool, FailureView>(attached),
            Err(error) => reported_clients(text@) == Err::<bool, FailureView>(error@),
        },
{
    let trimmed = crate::text::trim(text);
    match parse_u16(trimmed.as_str()) {
        Ok(clients) => Ok(clients > 0),
        Err(error) => Err(error),
    }
}

/// The lines of `lines` that name a session, without the white space around them.
pub open spec fn session_names(lines: Seq<Seq<char>>) -> Seq<Seq<char>>
    decreases lines.len(),
{
    if lines.len() == 0 {
        seq![]
    } else {
        let rest = session_names(lines.drop_last());
        let name = crate::text::trimmed(lines.last());
        if crate::protocol::valid_session_name(name) {
            rest.push(name)
        } else {
            rest
        }
    }
}

/// The sessions that tmux lists. Without a server there are none.
pub open spec fn listed_sessions(output: TmuxOutput) -> Result<Seq<Seq<char>>, FailureView> {
    if output.success {
        if vstd::utf8::valid_utf8(output.stdout@) {
            Ok(
                session_names(
                    crate::text::text_lines(vstd::utf8::decode_utf8(output.stdout@)),
                ),
            )
        } else {
            Err(FailureView::Utf8)
        }
    } else if vstd::utf8::valid_utf8(output.stderr@) && crate::text::occurs_in(
        vstd::utf8::decode_utf8(output.stderr@),
        "no server running"@,
    ) {
        Ok(seq![])
    } else {
        Err(process_failure(output.stderr@, "tmux list-sessions failed"@))
    }
}

/// Reads the sessions that tmux lists.
pub fn parse_session_list(output: TmuxOutput) -> (r: Result<Vec<SessionName>, BackendError>)
    ensures
        match r {
            Ok(sessions) => listed_sessions(output) == Ok::<Seq<Seq<char>>, FailureView>(
                crate::protocol::name_texts(sessions@),
            ),
            Err(error) => listed_sessions(output) == Err::<Seq<Seq<char>>, FailureView>(error@),
        },
{
    if !output.success {
        let stderr = match decode(output.stderr) {
            Ok(stderr) => stderr,
            Err(error) => return Err(error),
        };
        if crate::text::contains(stderr.as_str(), "no server running") {
            let none: Vec<SessionName> = Vec::new();
            proof {
                assert(crate::protocol::name_texts(none@) =~= seq![]);
            }
            return Ok(none);
        }
        return match safe_trimmed_message(stderr.as_str(), "tmux list-sessions failed") {
            Ok(message) => Err(BackendError::Operation(message)),
            Err(error) => Err(error),
        };
    }
    let text = match decode(output.stdout) {
        Ok(text) => text,
        Err(error) => return Err(error),
    };
    let lines = crate::text::lines(text.as_str());
    let ghost views = crate::text::texts(lines@);
    let mut sessions: Vec<SessionName> = Vec::new();
    let mut i: usize = 0;
    proof {
        assert(crate::protocol::name_texts(sessions@) =~= session_names(views.take(0)));
    }
    while i < lines.len()
        invariant
            i <= lines@.len(),
            views == crate::text::texts(lines@),
            crate::protocol::name_texts(sessions@) == session_names(views.take(i as int)),
        decreases lines@.len() - i,
    {
        let ghost before = sessions@;
        let trimmed = crate::text::trim(lines[i].as_str());
        proof {
            let more = views.take(i + 1);
            assert(more.drop_last() =~= views.take(i as int));
            assert(more.last() == lines@[i as int]@);
        }
        match SessionName::new(trimmed.as_str()) {
            Ok(session) => {
                sessions.push(session);
                proof {
                    assert(crate::protocol::name_texts(sessions@) =~= crate::protocol::name_texts(
                        before,
                    ).push(session@));
                }
            },
            Err(_) => {},
        }
        i += 1;
    }
    proof {
        assert(views.take(i as int) =~= views);
    }
    Ok(sessions)
}

/// The text that terminal bytes are. tmux takes no others.
pub fn input_text(bytes: &Bytes) -> (r: Result<String, BackendError>)
    ensures
        ({
            let input = crate::octets::octets(*bytes);
            match r {
                Ok(text) => vstd::utf8::valid_utf8(input) && text@ == vstd::utf8::decode_utf8(
                    input,
                ),
                Err(error) => !vstd::utf8::valid_utf8(input) && error@
                    == FailureView::UnsupportedInput,
            }
        }),
{
    let copy = vstd::slice::slice_to_vec(crate::octets::bytes_as_slice(bytes));
    match decode(copy) {
        Ok(text) => Ok(text),
        Err(_) => Err(BackendError::UnsupportedInput),
    }
}

/// A new session needs a name that is free.
pub fn require_absent(exists: bool) -> (r: Result<(), BackendError>)
    ensures
        match r {
            Ok(_) => !exists,
            Err(error) => exists && error@ == FailureView::Operation(
                "tmux session already exists"@,
            ),
        },
{
    if exists {
        return Err(operation_error("tmux session already exists"));
    }
    Ok(())
}

/// A session can be attached where it exists.
pub fn require_present(exists: bool) -> (r: Result<(), BackendError>)
    ensures
        match r {
            Ok(_) => exists,
            Err(error) => !exists && error@ == FailureView::SessionNotFound,
        },
{
    if exists {
        Ok(())
    } else {
        Err(BackendError::SessionNotFound)
    }
}

/// Tells whether `s` is a word: a text without blanks, tabs and line ends.
pub open spec fn is_word(s: Seq<char>) -> bool {
    &&& s.len() > 0
    &&& !s.contains(' ')
    &&& !s.contains('\t')
    &&& !s.contains('\n')
    &&& !s.contains('\u{c}')
    &&& !s.contains('\r')
}

proof fn lemma_decimal_is_a_word(n: nat)
    ensures
        is_word(crate::text::decimal_text(n)),
{
    let s = crate::text::decimal_text(n);
    crate::text::lemma_decimal_is_a_field(n);
    assert forall|c: char| crate::text::ascii_space()(c) implies !s.contains(c) by {
        if s.contains(c) {
            assert(!crate::text::ascii_space()(s[s.index_of(c)]));
        }
    }
    let p = crate::text::ascii_space();
    assert(p(' ') && p('\t') && p('\n') && p('\u{c}') && p('\r'));
}

proof fn lemma_reported_numbers(n: u16)
    ensures
        reported_number(crate::text::decimal_text(n as nat)) == Ok::<u16, FailureView>(n),
{
    crate::text::law_decimal_round_trip(n as nat, u16::MAX as nat);
}

proof fn lemma_four_words(a: Seq<char>, b: Seq<char>, c: Seq<char>, d: Seq<char>)
    requires
        is_word(a),
        is_word(b),
        is_word(c),
        is_word(d),
    ensures
        crate::text::fields(a + seq![' '] + b + seq![' '] + c + seq![' '] + d) == seq![a, b, c, d],
{
    let cd = c + seq![' '] + d;
    let bcd = b + seq![' '] + cd;
    crate::text::law_fields_stand_between_white_space(d, ' ', seq![]);
    crate::text::law_fields_stand_between_white_space(c, ' ', d);
    crate::text::law_fields_stand_between_white_space(b, ' ', cd);
    crate::text::law_fields_stand_between_white_space(a, ' ', bcd);
    assert(a + seq![' '] + b + seq![' '] + c + seq![' '] + d =~= a + seq![' '] + bcd);
    assert(seq![a] + (seq![b] + (seq![c] + seq![d])) =~= seq![a, b, c, d]);
}

proof fn lemma_five_words(a: Seq<char>, b: Seq<char>, c: Seq<char>, d: Seq<char>, e: Seq<char>)
    requires
        is_word(a),
        is_word(b),
        is_word(c),
        is_word(d),
        is_word(e),
    ensures
        crate::text::fields(
            a + seq![' '] + b + seq![' '] + c + seq![' '] + d + seq![' '] + e + seq!['\n'],
        ) == seq![a, b, c, d, e],
{
    let none = Seq::<char>::empty();
    let last = e + seq!['\n'] + none;
    let dl = d + seq![' '] + last;
    let cdl = c + seq![' '] + dl;
    let bcdl = b + seq![' '] + cdl;
    crate::text::law_fields_stand_between_white_space(e, '\n', none);
    crate::text::law_fields_stand_between_white_space(d, ' ', last);
    crate::text::law_fields_stand_between_white_space(c, ' ', dl);
    crate::text::law_fields_stand_between_white_space(b, ' ', cdl);
    crate::text::law_fields_stand_between_white_space(a, ' ', bcdl);
    assert(a + seq![' '] + b + seq![' '] + c + seq![' '] + d + seq![' '] + e + seq!['\n'] =~= a
        + seq![' '] + bcdl);
    assert(seq![a] + (seq![b] + (seq![c] + (seq![d] + (seq![e] + Seq::<Seq<char>>::empty())))) =~=
        seq![a, b, c, d, e]);
}

/// tmux reports the width, the height, the column and the row of the cursor, and whether it
/// is shown, in this order; without the last the cursor is shown.
pub proof fn law_reported_metadata_is_in_order(
    cols: u16,
    rows: u16,
    cursor_col: u16,
    cursor_row: u16,
    flag: u16,
)
    requires
        20 <= cols <= 300,
        5 <= rows <= 120,
    ensures
        ({
            let four = crate::text::decimal_text(cols as nat) + seq![' ']
                + crate::text::decimal_text(rows as nat) + seq![' '] + crate::text::decimal_text(
                cursor_col as nat,
            ) + seq![' '] + crate::text::decimal_text(cursor_row as nat);
            let five = four + seq![' '] + crate::text::decimal_text(flag as nat) + seq!['\n'];
            &&& reported_metadata(five) == Ok::<MetadataView, FailureView>(
                MetadataView { size: (cols, rows), cursor_col, cursor_row, cursor_visible: flag != 0 },
            )
            &&& reported_metadata(four) == Ok::<MetadataView, FailureView>(
                MetadataView { size: (cols, rows), cursor_col, cursor_row, cursor_visible: true },
            )
        }),
{
    let a = crate::text::decimal_text(cols as nat);
    let b = crate::text::decimal_text(rows as nat);
    let c = crate::text::decimal_text(cursor_col as nat);
    let d = crate::text::decimal_text(cursor_row as nat);
    let e = crate::text::decimal_text(flag as nat);
    let four = a + seq![' '] + b + seq![' '] + c + seq![' '] + d;
    let five = four + seq![' '] + e + seq!['\n'];
    lemma_decimal_is_a_word(cols as nat);
    lemma_decimal_is_a_word(rows as nat);
    lemma_decimal_is_a_word(cursor_col as nat);
    lemma_decimal_is_a_word(cursor_row as nat);
    lemma_decimal_is_a_word(flag as nat);
    lemma_reported_numbers(cols);
    lemma_reported_numbers(rows);
    lemma_reported_numbers(cursor_col);
    lemma_reported_numbers(cursor_row);
    lemma_reported_numbers(flag);
    lemma_four_words(a, b, c, d);
    lemma_five_words(a, b, c, d, e);
    crate::protocol::law_terminal_sizes_are_bounded(cols, rows);
}

/// tmux reports a window and a pane, in this order, for the session that was asked for.
pub proof fn law_reported_pane_is_in_order(
    session: Seq<char>,
    window: Seq<char>,
    pane: Seq<char>,
    other: Seq<char>,
)
    requires
        is_word(window),
        is_word(pane),
        is_word(other),
        vstd::utf8::encode_utf8(window).len() <= 512,
        vstd::utf8::encode_utf8(pane).len() <= 512,
    ensures
        reported_pane(session, window + seq![' '] + pane + seq!['\n']) == Ok::<
            SessionRefView,
            FailureView,
        >(SessionRefView { kind: BackendKind::Tmux, session, window, pane }),
        reported_pane(session, window) is Err,
        reported_pane(session, window + seq![' '] + (pane + seq![' '] + other)) is Err,
{
    let none = Seq::<char>::empty();
    crate::text::law_fields_stand_between_white_space(window, ' ', none);
    crate::text::law_fields_stand_between_white_space(pane, '\n', none);
    crate::text::law_fields_stand_between_white_space(window, ' ', pane + seq!['\n'] + none);
    crate::text::law_fields_stand_between_white_space(other, ' ', none);
    crate::text::law_fields_stand_between_white_space(pane, ' ', other);
    crate::text::law_fields_stand_between_white_space(window, ' ', pane + seq![' '] + other);
    assert(window + seq![' '] + pane + seq!['\n'] =~= window + seq![' '] + (pane + seq!['\n']
        + none));
    assert(crate::text::fields(window + seq![' '] + pane + seq!['\n']) =~= seq![window, pane]);
}

/// tmux reports session, window, pane, width and height, in this order, with tabs between
/// them.
pub proof fn law_reported_details_are_in_order(
    session: Seq<char>,
    window: Seq<char>,
    pane: Seq<char>,
    cols: u16,
    rows: u16,
)
    requires
        crate::protocol::valid_session_name(session),
        !window.contains('\t'),
        !pane.contains('\t'),
        vstd::utf8::encode_utf8(window).len() <= 512,
        vstd::utf8::encode_utf8(pane).len() <= 512,
        20 <= cols <= 300,
        5 <= rows <= 120,
    ensures
        reported_info(
            session + seq!['\t'] + window + seq!['\t'] + pane + seq!['\t']
                + crate::text::decimal_text(cols as nat) + seq!['\t'] + crate::text::decimal_text(
                rows as nat,
            ) + seq!['\n'],
        ) == Ok::<InfoView, FailureView>(InfoView { session, window, pane, size: (cols, rows) }),
{
    let d = crate::text::decimal_text(cols as nat);
    let e = crate::text::decimal_text(rows as nat);
    let tab = seq!['\t'];
    let line = session + tab + window + tab + pane + tab + d + tab + e;
    let text = line + seq!['\n'];
    lemma_decimal_is_a_word(cols as nat);
    lemma_decimal_is_a_word(rows as nat);
    lemma_reported_numbers(cols);
    lemma_reported_numbers(rows);
    crate::protocol::law_terminal_sizes_are_bounded(cols, rows);
    crate::text::law_decimal_is_short(rows as nat, e.len() - 1);
    assert(line.last() == e.last());
    assert(text.drop_last() =~= line);
    assert(text.last() == '\n');
    assert(crate::text::without_trailing(line, crate::text::space()) == line);
    assert(crate::text::without_trailing(text, crate::text::space()) == line);
    assert(!session.contains('\t')) by {
        if session.contains('\t') {
            assert(crate::protocol::is_name_char(session[session.index_of('\t')]));
        }
    }
    crate::text::law_pieces_are_cut_at_each_mark(e, seq![], '\t');
    crate::text::law_pieces_are_cut_at_each_mark(d, e, '\t');
    crate::text::law_pieces_are_cut_at_each_mark(pane, d + tab + e, '\t');
    crate::text::law_pieces_are_cut_at_each_mark(window, pane + tab + (d + tab + e), '\t');
    crate::text::law_pieces_are_cut_at_each_mark(
        session,
        window + tab + (pane + tab + (d + tab + e)),
        '\t',
    );
    assert(line =~= session + tab + (window + tab + (pane + tab + (d + tab + e))));
    assert(crate::text::pieces(line, '\t') =~= seq![session, window, pane, d, e]);
}

/// A session is attached where tmux counts at least one client.
pub proof fn law_attached_is_some_client(clients: u16)
    ensures
        reported_clients(crate::text::decimal_text(clients as nat) + seq!['\n']) == Ok::<
            bool,
            FailureView,
        >(clients >= 1),
{
    let s = crate::text::decimal_text(clients as nat);
    lemma_decimal_is_a_word(clients as nat);
    lemma_reported_numbers(clients);
    crate::text::law_decimal_is_short(clients as nat, s.len() - 1);
    crate::text::law_decimal_is_short(clients as nat, 0);
    crate::text::law_white_space_is_trimmed(s, '\n');
    assert(s + seq!['\n'] =~= s.push('\n'));
}

/// The sessions are those that the lines name, in their order; a line that names none is
/// passed over, and so is white space around a name.
pub proof fn law_listed_sessions_are_those_named(
    lines: Seq<Seq<char>>,
    name: Seq<char>,
    more: Seq<Seq<char>>,
)
    ensures
        session_names(lines + more) == session_names(lines) + session_names(more),
        crate::protocol::valid_session_name(name) ==> {
            &&& session_names(seq![name]) == seq![name]
            &&& session_names(seq![name.push(' ')]) == seq![name]
        },
        !crate::protocol::valid_session_name(crate::text::trimmed(name)) ==> session_names(
            seq![name],
        ) == Seq::<Seq<char>>::empty(),
    decreases more.len(),
{
    reveal_with_fuel(session_names, 2);
    if more.len() == 0 {
        assert(lines + more =~= lines);
    } else {
        law_listed_sessions_are_those_named(lines, name, more.drop_last());
        assert((lines + more).drop_last() =~= lines + more.drop_last());
        assert((lines + more).last() == more.last());
        assert(session_names(lines + more) =~= session_names(lines) + session_names(more));
    }
    if crate::protocol::valid_session_name(name) {
        assert(crate::protocol::is_name_char(name[0]));
        assert(crate::protocol::is_name_char(name.last()));
        crate::text::law_white_space_is_trimmed(name, ' ');
    }
    assert(seq![name].drop_last() =~= seq![]);
    assert(seq![name.push(' ')].drop_last() =~= seq![]);
    assert(seq![name].last() == name);
}

/// tmux is asked for the sessions: what it writes are the sessions, and none where no server
/// runs. Any other failure is told.
pub proof fn law_sessions_are_listed_or_the_failure_is_told(output: TmuxOutput, text: Seq<char>)
    ensures
        output.success && output.stdout@ == vstd::utf8::encode_utf8(text) ==> listed_sessions(
            output,
        ) == Ok::<Seq<Seq<char>>, FailureView>(session_names(crate::text::text_lines(text))),
        !output.success && output.stderr@ == vstd::utf8::encode_utf8(text) ==> {
            &&& listed_sessions(output) is Ok <==> crate::text::occurs_in(
                text,
                "no server running"@,
            )
            &&& listed_sessions(output) matches Ok(names) ==> names.len() == 0
        },
{
    vstd::utf8::encode_utf8_valid_utf8(text);
    vstd::utf8::encode_utf8_decode_utf8(text);
}

/// A failed process is told by what it wrote to standard error, without the white space
/// around it, or by a text of its own where it wrote nothing. What a process that succeeded
/// wrote is its output.
pub proof fn law_failures_are_told(output: TmuxOutput, text: Seq<char>, fallback: Seq<char>)
    ensures
        output.success && output.stdout@ == vstd::utf8::encode_utf8(text) ==> output_text(
            output,
            fallback,
        ) == Ok::<Seq<char>, FailureView>(text),
        !output.success && output.stderr@ == vstd::utf8::encode_utf8(text) ==> {
            let told = crate::text::trimmed(text);
            &&& told.len() == 0 ==> output_text(output, fallback) == Err::<Seq<char>, FailureView>(
                FailureView::Operation(fallback),
            )
            &&& told.len() > 0 && vstd::utf8::encode_utf8(told).len() <= 512 ==> output_text(
                output,
                fallback,
            ) == Err::<Seq<char>, FailureView>(FailureView::Operation(told))
            &&& vstd::utf8::encode_utf8(told).len() > 512 ==> output_text(output, fallback)
                == Err::<Seq<char>, FailureView>(
                FailureView::Protocol(ProtocolError::SafeMessageTooLong),
            )
        },
{
    vstd::utf8::encode_utf8_valid_utf8(text);
    vstd::utf8::encode_utf8_decode_utf8(text);
    assert(vstd::utf8::encode_utf8(Seq::<char>::empty()).len() == 0);
    if crate::text::trimmed(text).len() == 0 {
        assert(crate::text::trimmed(text) =~= Seq::<char>::empty());
    }
}

/// A report that is cut short is refused, and the failure names the first field that is
/// missing; one that goes on too long is refused as well.
pub proof fn law_missing_fields_are_named(session: Seq<char>, text: Seq<char>)
    ensures
        ({
            let words = crate::text::fields(text).len();
            let told = reported_pane(session, text);
            &&& words == 0 ==> told == Err::<SessionRefView, FailureView>(
                FailureView::Operation("tmux did not report window id"@),
            )
            &&& words == 1 ==> told == Err::<SessionRefView, FailureView>(
                FailureView::Operation("tmux did not report pane id"@),
            )
            &&& words > 2 ==> told == Err::<SessionRefView, FailureView>(
                FailureView::Operation("tmux reported unexpected pane identity"@),
            )
        }),
        ({
            let words = crate::text::fields(text).len();
            let told = reported_metadata(text);
            &&& words == 0 ==> told == Err::<MetadataView, FailureView>(
                FailureView::Operation("tmux did not report pane width"@),
            )
            &&& words == 1 ==> told == Err::<MetadataView, FailureView>(
                FailureView::Operation("tmux did not report pane height"@),
            )
            &&& words == 2 ==> told == Err::<MetadataView, FailureView>(
                FailureView::Operation("tmux did not report cursor column"@),
            )
            &&& words == 3 ==> told == Err::<MetadataView, FailureView>(
                FailureView::Operation("tmux did not report cursor row"@),
            )
        }),
        ({
            let parts = crate::text::pieces(
                crate::text::without_trailing(text, crate::text::space()),
                '\t',
            ).len();
            let told = reported_info(text);
            &&& parts == 1 ==> told == Err::<InfoView, FailureView>(
                FailureView::Operation("tmux did not report window id"@),
            )
            &&& parts == 2 ==> told == Err::<InfoView, FailureView>(
                FailureView::Operation("tmux did not report pane id"@),
            )
            &&& parts == 3 ==> told == Err::<InfoView, FailureView>(
                FailureView::Operation("tmux did not report pane width"@),
            )
            &&& parts == 4 ==> told == Err::<InfoView, FailureView>(
                FailureView::Operation("tmux did not report pane height"@),
            )
            &&& parts > 5 ==> told == Err::<InfoView, FailureView>(
                FailureView::Operation("tmux reported unexpected session details"@),
            )
        }),
{
}

/// Output that is no text is told as such where it was asked for, and a failure that is no
/// text is a failure all the same.
pub proof fn law_unreadable_output_is_no_list(output: TmuxOutput, fallback: Seq<char>)
    ensures
        output.success && !vstd::utf8::valid_utf8(output.stdout@) ==> {
            &&& listed_sessions(output) == Err::<Seq<Seq<char>>, FailureView>(FailureView::Utf8)
            &&& output_text(output, fallback) == Err::<Seq<char>, FailureView>(FailureView::Utf8)
        },
        !output.success && !vstd::utf8::valid_utf8(output.stderr@) ==> listed_sessions(output) is Err,
        !output.success ==> output_text(output, fallback) is Err,
{
}

} // verus!
