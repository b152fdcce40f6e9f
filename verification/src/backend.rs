//! Backend session adapter contracts.
//!
//! Backends such as rmux or tmux own the real session, pane, screen state, and
//! native local attach path. They are reached through this adapter boundary.

use bytes::Bytes;
use vstd::prelude::*;

use crate::protocol::{ProtocolError, SafeMessage, SessionName, TerminalSize};

verus! {

/// Backend scroll direction.
#[derive(Debug, Clone, Copy, PartialEq, Eq, Hash, Structural)]
pub enum BackendScrollDirection {
    /// Scroll up through backend history.
    Up,
    /// Scroll down through backend history.
    Down,
}

/// Terminal backend implementation kind.
#[derive(Debug, Clone, Copy, PartialEq, Eq, Hash, Structural)]
pub enum BackendKind {
    /// rmux backend.
    Rmux,
    /// tmux backend.
    Tmux,
}

/// Backend window identity.
#[derive(Debug, PartialEq, Eq)]
pub struct BackendWindowId(SafeMessage);

impl View for BackendWindowId {
    type V = Seq<char>;

    closed spec fn view(&self) -> Seq<char> {
        self.0@
    }
}

impl BackendWindowId {
    /// Creates a backend window id that fits a safe control message.
    pub fn new(value: &str) -> (r: Result<Self, BackendError>)
        ensures
            match r {
                Ok(id) => fits_safe_message(value@) && id@ == value@,
                Err(error) => !fits_safe_message(value@) && error == BackendError::Protocol(
                    ProtocolError::SafeMessageTooLong,
                ),
            },
    {
        match SafeMessage::new(value) {
            Ok(message) => Ok(BackendWindowId(message)),
            Err(error) => Err(BackendError::Protocol(error)),
        }
    }

    /// Returns the window id as a string slice.
    #[must_use]
    pub fn as_str(&self) -> (r: &str)
        ensures
            r@ == self@,
    {
        self.0.as_str()
    }
}

impl Clone for BackendWindowId {
    fn clone(&self) -> (r: Self)
        ensures
            r == *self,
    {
        BackendWindowId(self.0.clone())
    }
}

/// Backend pane identity.
#[derive(Debug, PartialEq, Eq)]
pub struct BackendPaneId(SafeMessage);

impl View for BackendPaneId {
    type V = Seq<char>;

    closed spec fn view(&self) -> Seq<char> {
        self.0@
    }
}

impl BackendPaneId {
    /// Creates a backend pane id that fits a safe control message.
    pub fn new(value: &str) -> (r: Result<Self, BackendError>)
        ensures
            match r {
                Ok(id) => fits_safe_message(value@) && id@ == value@,
                Err(error) => !fits_safe_message(value@) && error == BackendError::Protocol(
                    ProtocolError::SafeMessageTooLong,
                ),
            },
    {
        match SafeMessage::new(value) {
            Ok(message) => Ok(BackendPaneId(message)),
            Err(error) => Err(BackendError::Protocol(error)),
        }
    }

    /// Returns the pane id as a string slice.
    #[must_use]
    pub fn as_str(&self) -> (r: &str)
        ensures
            r@ == self@,
    {
        self.0.as_str()
    }
}

impl Clone for BackendPaneId {
    fn clone(&self) -> (r: Self)
        ensures
            r == *self,
    {
        BackendPaneId(self.0.clone())
    }
}

/// Tells whether `text` fits a safe control message.
pub open spec fn fits_safe_message(text: Seq<char>) -> bool {
    crate::text::byte_len(text) <= crate::protocol::SAFE_MESSAGE_MAX_BYTES
}

/// The contents of a [`BackendSessionRef`].
pub struct SessionRefView {
    /// Backend kind.
    pub kind: BackendKind,
    /// Backend session name.
    pub session: Seq<char>,
    /// Backend window id.
    pub window: Seq<char>,
    /// Backend pane id.
    pub pane: Seq<char>,
}

/// Reference to a concrete backend session/window/pane.
#[derive(Debug, PartialEq, Eq)]
pub struct BackendSessionRef {
    kind: BackendKind,
    session: SessionName,
    window: BackendWindowId,
    pane: BackendPaneId,
}

impl View for BackendSessionRef {
    type V = SessionRefView;

    closed spec fn view(&self) -> SessionRefView {
        SessionRefView {
            kind: self.kind,
            session: self.session@,
            window: self.window@,
            pane: self.pane@,
        }
    }
}

impl BackendSessionRef {
    /// Creates a backend session reference.
    #[must_use]
    pub fn new(
        kind: BackendKind,
        session: SessionName,
        window: BackendWindowId,
        pane: BackendPaneId,
    ) -> (r: Self)
        ensures
            r@ == (SessionRefView { kind, session: session@, window: window@, pane: pane@ }),
    {
        BackendSessionRef { kind, session, window, pane }
    }

    /// Returns the backend kind.
    #[must_use]
    pub fn kind(&self) -> (r: BackendKind)
        ensures
            r == self@.kind,
    {
        self.kind
    }

    /// Returns the backend session name.
    #[must_use]
    pub fn session(&self) -> (r: &SessionName)
        ensures
            r@ == self@.session,
    {
        &self.session
    }

    /// Returns the backend window id.
    #[must_use]
    pub fn window(&self) -> (r: &BackendWindowId)
        ensures
            r@ == self@.window,
    {
        &self.window
    }

    /// Returns the backend pane id.
    #[must_use]
    pub fn pane(&self) -> (r: &BackendPaneId)
        ensures
            r@ == self@.pane,
    {
        &self.pane
    }
}

impl Clone for BackendSessionRef {
    fn clone(&self) -> (r: Self)
        ensures
            r == *self,
    {
        BackendSessionRef {
            kind: self.kind,
            session: self.session.clone(),
            window: self.window.clone(),
            pane: self.pane.clone(),
        }
    }
}

/// Backend session that was created, or found already running.
#[derive(Debug, PartialEq, Eq)]
pub struct BackendSessionResolution {
    reference: BackendSessionRef,
    created: bool,
}

impl View for BackendSessionResolution {
    type V = (SessionRefView, bool);

    closed spec fn view(&self) -> (SessionRefView, bool) {
        (self.reference@, self.created)
    }
}

impl BackendSessionResolution {
    /// Creates a resolution.
    #[must_use]
    pub fn new(reference: BackendSessionRef, created: bool) -> (r: Self)
        ensures
            r@ == (reference@, created),
    {
        BackendSessionResolution { reference, created }
    }

    /// Returns whether the session was created.
    #[must_use]
    pub fn created(&self) -> (r: bool)
        ensures
            r == self@.1,
    {
        self.created
    }

    /// Returns the active pane reference.
    #[must_use]
    pub fn into_reference(self) -> (r: BackendSessionRef)
        ensures
            r@ == self@.0,
    {
        self.reference
    }
}

/// The contents of a [`BackendScreenSnapshot`].
pub struct SnapshotView {
    /// Screen size.
    pub size: TerminalSize,
    /// Cursor column.
    pub cursor_col: u16,
    /// Cursor row.
    pub cursor_row: u16,
    /// Whether the cursor is shown.
    pub cursor_visible: bool,
    /// Screen lines.
    pub lines: Seq<Seq<char>>,
}

/// Snapshot of a backend pane screen for semantic API responses.
#[derive(Debug, Clone, PartialEq, Eq)]
pub struct BackendScreenSnapshot {
    size: TerminalSize,
    cursor_col: u16,
    cursor_row: u16,
    cursor_visible: bool,
    lines: Vec<String>,
}

impl View for BackendScreenSnapshot {
    type V = SnapshotView;

    closed spec fn view(&self) -> SnapshotView {
        SnapshotView {
            size: self.size,
            cursor_col: self.cursor_col,
            cursor_row: self.cursor_row,
            cursor_visible: self.cursor_visible,
            lines: crate::text::texts(self.lines@),
        }
    }
}

impl BackendScreenSnapshot {
    /// Creates a backend screen snapshot with a visible cursor.
    #[must_use]
    pub fn new(size: TerminalSize, cursor_col: u16, cursor_row: u16, lines: Vec<String>) -> (r:
        Self)
        ensures
            r@ == (SnapshotView {
                size,
                cursor_col,
                cursor_row,
                cursor_visible: true,
                lines: crate::text::texts(lines@),
            }),
    {
        BackendScreenSnapshot::new_with_cursor_visibility(
            size,
            cursor_col,
            cursor_row,
            true,
            lines,
        )
    }

    /// Creates a backend screen snapshot.
    #[must_use]
    pub fn new_with_cursor_visibility(
        size: TerminalSize,
        cursor_col: u16,
        cursor_row: u16,
        cursor_visible: bool,
        lines: Vec<String>,
    ) -> (r: Self)
        ensures
            r@ == (SnapshotView {
                size,
                cursor_col,
                cursor_row,
                cursor_visible,
                lines: crate::text::texts(lines@),
            }),
    {
        BackendScreenSnapshot { size, cursor_col, cursor_row, cursor_visible, lines }
    }

    /// Returns the screen size.
    #[must_use]
    pub fn size(&self) -> (r: TerminalSize)
        ensures
            r == self@.size,
    {
        self.size
    }

    /// Returns the cursor column.
    #[must_use]
    pub fn cursor_col(&self) -> (r: u16)
        ensures
            r == self@.cursor_col,
    {
        self.cursor_col
    }

    /// Returns the cursor row.
    #[must_use]
    pub fn cursor_row(&self) -> (r: u16)
        ensures
            r == self@.cursor_row,
    {
        self.cursor_row
    }

    /// Returns whether the cursor is shown.
    #[must_use]
    pub fn cursor_visible(&self) -> (r: bool)
        ensures
            r == self@.cursor_visible,
    {
        self.cursor_visible
    }

    /// Returns screen lines.
    #[must_use]
    pub fn lines(&self) -> (r: &[String])
        ensures
            crate::text::texts(r@) == self@.lines,
    {
        self.lines.as_slice()
    }
}

/// Event emitted by a backend pane.
#[derive(Debug, Clone, PartialEq, Eq)]
pub enum BackendEvent {
    /// Backend emitted VT/ANSI output bytes.
    Output {
        /// Output bytes.
        bytes: Bytes,
    },
    /// Backend pane resized.
    Resized {
        /// New pane size.
        size: TerminalSize,
    },
    /// Backend session closed.
    Closed {
        /// Safe close message.
        message: SafeMessage,
    },
}

/// `std::io::Error`, a failed input or output operation.
#[verifier::external_type_specification]
#[verifier::external_body]
pub struct ExIoError(std::io::Error);

/// `std::string::FromUtf8Error`, bytes that are no UTF-8 text.
#[verifier::external_type_specification]
#[verifier::external_body]
pub struct ExFromUtf8Error(std::string::FromUtf8Error);

/// Backend adapter failure.
#[derive(Debug)]
pub enum BackendError {
    /// Protocol validation failed.
    Protocol(ProtocolError),
    /// The backend executable or service is unavailable.
    Unavailable,
    /// The requested session was not found.
    SessionNotFound,
    /// Backend IO failed.
    Io(std::io::Error),
    /// Backend output was not valid UTF-8.
    Utf8(std::string::FromUtf8Error),
    /// Terminal input bytes could not be represented for this backend.
    UnsupportedInput,
    /// Backend operation failed with a safe message.
    Operation(SafeMessage),
}

/// The contents of a [`BackendError`].
pub enum FailureView {
    Protocol(ProtocolError),
    Unavailable,
    SessionNotFound,
    Io,
    Utf8,
    UnsupportedInput,
    Operation(Seq<char>),
}

impl View for BackendError {
    type V = FailureView;

    open spec fn view(&self) -> FailureView {
        match *self {
            BackendError::Protocol(error) => FailureView::Protocol(error),
            BackendError::Unavailable => FailureView::Unavailable,
            BackendError::SessionNotFound => FailureView::SessionNotFound,
            BackendError::Io(_) => FailureView::Io,
            BackendError::Utf8(_) => FailureView::Utf8,
            BackendError::UnsupportedInput => FailureView::UnsupportedInput,
            BackendError::Operation(message) => FailureView::Operation(message@),
        }
    }
}

/// What a backend was asked to do, and what it answered.
#[allow(inconsistent_fields)]
pub enum BackendCall {
    CreateOrFind {
        session: Seq<char>,
        size: TerminalSize,
        found: Result<SessionRefView, BackendError>,
    },
    WriteInput { target: SessionRefView, bytes: Seq<u8>, answer: Result<(), BackendError> },
    SendText { target: SessionRefView, text: Seq<char>, answer: Result<(), BackendError> },
    SendKey { target: SessionRefView, key: Seq<char>, answer: Result<(), BackendError> },
    RunCommand { target: SessionRefView, command: Seq<char>, answer: Result<(), BackendError> },
    Resize { target: SessionRefView, size: TerminalSize, answer: Result<(), BackendError> },
    ReadScreen { target: SessionRefView, screen: Result<SnapshotView, BackendError> },
    HasNativeClient { target: SessionRefView, attached: Result<bool, BackendError> },
    Scroll {
        target: SessionRefView,
        direction: BackendScrollDirection,
        amount: u16,
        answer: Result<(), BackendError>,
    },
    Close { target: SessionRefView, answer: Result<(), BackendError> },
}

impl BackendCall {
    /// Whether the backend could do it, and else why not.
    pub open spec fn outcome(self) -> Result<(), BackendError> {
        match self {
            BackendCall::CreateOrFind { found, .. } => match found {
                Ok(_) => Ok(()),
                Err(error) => Err(error),
            },
            BackendCall::WriteInput { answer, .. } => answer,
            BackendCall::SendText { answer, .. } => answer,
            BackendCall::SendKey { answer, .. } => answer,
            BackendCall::RunCommand { answer, .. } => answer,
            BackendCall::Resize { answer, .. } => answer,
            BackendCall::ReadScreen { screen, .. } => match screen {
                Ok(_) => Ok(()),
                Err(error) => Err(error),
            },
            BackendCall::HasNativeClient { attached, .. } => match attached {
                Ok(_) => Ok(()),
                Err(error) => Err(error),
            },
            BackendCall::Scroll { answer, .. } => answer,
            BackendCall::Close { answer, .. } => answer,
        }
    }
}

/// Adapter boundary for backend-owned terminal sessions.
///
/// A backend keeps a history of what it was asked to do; each method adds
/// itself to it.
pub trait BackendAdapter {
    /// What the backend was asked to do so far. A verified implementation says
    /// what that is. The default is there because ordinary Rust cannot write one; an
    /// implementation that inherits it is outside what the methods state, as its
    /// history does not grow.
    closed spec fn history(&self) -> Seq<BackendCall> {
        Seq::empty()
    }

    /// Creates or finds a backend session and returns its active pane reference.
    fn create_or_find_session(&mut self, session: &SessionName, size: TerminalSize) -> (r: Result<
        BackendSessionRef,
        BackendError,
    >)
        ensures
            final(self).history() == old(self).history().push(
                BackendCall::CreateOrFind {
                    session: session@,
                    size,
                    found: match r {
                        Ok(reference) => Ok(reference@),
                        Err(error) => Err(error),
                    },
                },
            ),
    ;

    /// Writes terminal input bytes to a backend pane.
    fn write_input(&mut self, target: &BackendSessionRef, bytes: Bytes) -> (r: Result<
        (),
        BackendError,
    >)
        ensures
            final(self).history() == old(self).history().push(
                BackendCall::WriteInput {
                    target: target@,
                    bytes: crate::octets::octets(bytes),
                    answer: r,
                },
            ),
    ;

    /// Sends literal text to a backend pane.
    fn send_text(&mut self, target: &BackendSessionRef, text: &str) -> (r: Result<
        (),
        BackendError,
    >)
        ensures
            final(self).history() == old(self).history().push(
                BackendCall::SendText { target: target@, text: text@, answer: r },
            ),
    ;

    /// Sends one backend-compatible key token to a pane.
    fn send_key(&mut self, target: &BackendSessionRef, key: &str) -> (r: Result<(), BackendError>)
        ensures
            final(self).history() == old(self).history().push(
                BackendCall::SendKey { target: target@, key: key@, answer: r },
            ),
    ;

    /// Sends a command and confirms it with Enter.
    fn run_command(&mut self, target: &BackendSessionRef, command: &str) -> (r: Result<
        (),
        BackendError,
    >)
        ensures
            final(self).history() == old(self).history().push(
                BackendCall::RunCommand { target: target@, command: command@, answer: r },
            ),
    ;

    /// Resizes a backend pane.
    fn resize(&mut self, target: &BackendSessionRef, size: TerminalSize) -> (r: Result<
        (),
        BackendError,
    >)
        ensures
            final(self).history() == old(self).history().push(
                BackendCall::Resize { target: target@, size, answer: r },
            ),
    ;

    /// Reads a screen snapshot from a backend pane.
    fn read_screen(&mut self, target: &BackendSessionRef) -> (r: Result<
        BackendScreenSnapshot,
        BackendError,
    >)
        ensures
            final(self).history() == old(self).history().push(
                BackendCall::ReadScreen {
                    target: target@,
                    screen: match r {
                        Ok(snapshot) => Ok(snapshot@),
                        Err(error) => Err(error),
                    },
                },
            ),
    ;

    /// Reports whether a backend-native local client is attached.
    fn has_native_client(&mut self, target: &BackendSessionRef) -> (r: Result<bool, BackendError>)
        ensures
            final(self).history() == old(self).history().push(
                BackendCall::HasNativeClient {
                    target: target@,
                    attached: r,
                },
            ),
    ;

    /// Scrolls backend-visible pane history.
    fn scroll(
        &mut self,
        target: &BackendSessionRef,
        direction: BackendScrollDirection,
        amount: u16,
    ) -> (r: Result<(), BackendError>)
        ensures
            final(self).history() == old(self).history().push(
                BackendCall::Scroll { target: target@, direction, amount, answer: r },
            ),
    ;

    /// Closes or detaches a backend session according to caller policy.
    fn close_session(&mut self, target: &BackendSessionRef) -> (r: Result<(), BackendError>)
        ensures
            final(self).history() == old(self).history().push(
                BackendCall::Close { target: target@, answer: r },
            ),
    ;
}

} // verus!
