//! The local terminal that a runtime session is attached to.

use bytes::Bytes;
use vstd::prelude::*;

use crate::protocol::{ServerControlMessage, ServerMessageView, TerminalSize};
use crate::runtime::{ClientOutput, OutputView, ReasonView, ShutdownReason};

verus! {

/// Longest terminal state, in bytes.
pub const STTY_STATE_MAX_BYTES: usize = 1024;

/// What is wrong with an answer of `stty`.
#[derive(Debug, Clone, Copy, PartialEq, Eq, Structural)]
pub enum SttyError {
    /// The state is not UTF-8.
    StateNotUtf8,
    /// The state is empty or too long.
    StateInvalid,
    /// The size is not UTF-8.
    SizeNotUtf8,
    /// No rows.
    RowsMissing,
    /// Rows that are no number.
    RowsInvalid,
    /// No columns.
    ColumnsMissing,
    /// Columns that are no number.
    ColumnsInvalid,
    /// More than rows and columns.
    ExtraFields,
    /// A size that no terminal has.
    SizeInvalid,
}

impl SttyError {
    /// The text of the failure.
    pub open spec fn text(self) -> Seq<char> {
        match self {
            SttyError::StateNotUtf8 => "stty state was not utf-8"@,
            SttyError::StateInvalid => "stty returned invalid terminal state"@,
            SttyError::SizeNotUtf8 => "stty size output was not utf-8"@,
            SttyError::RowsMissing => "stty size did not include rows"@,
            SttyError::RowsInvalid => "stty size rows were invalid"@,
            SttyError::ColumnsMissing => "stty size did not include columns"@,
            SttyError::ColumnsInvalid => "stty size columns were invalid"@,
            SttyError::ExtraFields => "stty size returned extra fields"@,
            SttyError::SizeInvalid => "stty size was outside supported terminal bounds"@,
        }
    }

    /// Returns the text of the failure.
    #[must_use]
    pub fn message(self) -> (r: &'static str)
        ensures
            r@ == self.text(),
    {
        match self {
            SttyError::StateNotUtf8 => "stty state was not utf-8",
            SttyError::StateInvalid => "stty returned invalid terminal state",
            SttyError::SizeNotUtf8 => "stty size output was not utf-8",
            SttyError::RowsMissing => "stty size did not include rows",
            SttyError::RowsInvalid => "stty size rows were invalid",
            SttyError::ColumnsMissing => "stty size did not include columns",
            SttyError::ColumnsInvalid => "stty size columns were invalid",
            SttyError::ExtraFields => "stty size returned extra fields",
            SttyError::SizeInvalid => "stty size was outside supported terminal bounds",
        }
    }
}

/// The terminal state that `stty -g` prints.
pub open spec fn state_of(output: Seq<u8>) -> Result<Seq<char>, SttyError> {
    let state = crate::text::trimmed(vstd::utf8::decode_utf8(output));
    if !vstd::utf8::valid_utf8(output) {
        Err(SttyError::StateNotUtf8)
    } else if state.len() == 0 || crate::text::byte_len(state) > STTY_STATE_MAX_BYTES {
        Err(SttyError::StateInvalid)
    } else {
        Ok(state)
    }
}

/// Reads the terminal state that `stty -g` prints.
pub fn parse_stty_state(output: Vec<u8>) -> (r: Result<String, SttyError>)
    ensures
        match r {
            Ok(state) => state_of(output@) == Ok::<Seq<char>, SttyError>(state@),
            Err(error) => state_of(output@) == Err::<Seq<char>, SttyError>(error),
        },
{
    let text = match String::from_utf8(output) {
        Ok(text) => text,
        Err(_) => return Err(SttyError::StateNotUtf8),
    };
    proof {
        vstd::utf8::encode_utf8_decode_utf8(text@);
    }
    let state = crate::text::trim(text.as_str());
    if state.as_str().is_empty() || state.as_str().as_bytes().len() > STTY_STATE_MAX_BYTES {
        return Err(SttyError::StateInvalid);
    }
    Ok(state)
}

/// The columns and rows that a text gives: rows first, then columns.
pub open spec fn size_of(value: Seq<char>) -> Result<(u16, u16), SttyError> {
    let parts = crate::text::fields(value);
    let rows = crate::text::number(parts[0], 10, u16::MAX as nat);
    let cols = crate::text::number(parts[1], 10, u16::MAX as nat);
    if parts.len() == 0 {
        Err(SttyError::RowsMissing)
    } else if rows is None {
        Err(SttyError::RowsInvalid)
    } else if parts.len() == 1 {
        Err(SttyError::ColumnsMissing)
    } else if cols is None {
        Err(SttyError::ColumnsInvalid)
    } else if parts.len() > 2 {
        Err(SttyError::ExtraFields)
    } else if !crate::protocol::valid_terminal_size(cols->0 as u16, rows->0 as u16) {
        Err(SttyError::SizeInvalid)
    } else {
        Ok((cols->0 as u16, rows->0 as u16))
    }
}

/// Reads a terminal size: rows first, then columns.
pub fn parse_stty_size(value: &str) -> (r: Result<TerminalSize, SttyError>)
    ensures
        match r {
            Ok(size) => size_of(value@) == Ok::<(u16, u16), SttyError>(size@),
            Err(error) => size_of(value@) == Err::<(u16, u16), SttyError>(error),
        },
{
    let parts = crate::text::split_ascii_whitespace(value);
    let ghost views = crate::text::texts(parts@);
    if parts.len() == 0 {
        return Err(SttyError::RowsMissing);
    }
    proof {
        assert(views[0] == parts@[0]@);
    }
    let rows = match crate::text::parse_u16(parts[0].as_str()) {
        Some(rows) => rows,
        None => return Err(SttyError::RowsInvalid),
    };
    if parts.len() == 1 {
        return Err(SttyError::ColumnsMissing);
    }
    proof {
        assert(views[1] == parts@[1]@);
    }
    let cols = match crate::text::parse_u16(parts[1].as_str()) {
        Some(cols) => cols,
        None => return Err(SttyError::ColumnsInvalid),
    };
    if parts.len() > 2 {
        return Err(SttyError::ExtraFields);
    }
    match TerminalSize::new(cols, rows) {
        Ok(size) => Ok(size),
        Err(_) => Err(SttyError::SizeInvalid),
    }
}

/// The terminal size that `stty size` prints.
pub open spec fn printed_size(output: Seq<u8>) -> Result<(u16, u16), SttyError> {
    if vstd::utf8::valid_utf8(output) {
        size_of(crate::text::trimmed(vstd::utf8::decode_utf8(output)))
    } else {
        Err(SttyError::SizeNotUtf8)
    }
}

/// Reads the terminal size that `stty size` prints.
pub fn read_stty_size(output: Vec<u8>) -> (r: Result<TerminalSize, SttyError>)
    ensures
        match r {
            Ok(size) => printed_size(output@) == Ok::<(u16, u16), SttyError>(size@),
            Err(error) => printed_size(output@) == Err::<(u16, u16), SttyError>(error),
        },
{
    let text = match String::from_utf8(output) {
        Ok(text) => text,
        Err(_) => return Err(SttyError::SizeNotUtf8),
    };
    proof {
        vstd::utf8::encode_utf8_decode_utf8(text@);
    }
    parse_stty_size(crate::text::trim(text.as_str()).as_str())
}

/// What the local terminal does with an output of the runtime.
pub enum TerminalStep {
    /// Write bytes to standard output.
    Write(Bytes),
    /// Write a notice to standard error.
    Notice(String),
    /// Go on.
    Skip,
    /// The runtime closed the terminal.
    Finish(ShutdownReason),
}

/// The contents of a terminal step.
pub enum StepView {
    /// Write bytes to standard output.
    Write(Seq<u8>),
    /// Write a notice to standard error.
    Notice(Seq<char>),
    /// Go on.
    Skip,
    /// The runtime closed the terminal.
    Finish(ReasonView),
}

impl View for TerminalStep {
    type V = StepView;

    open spec fn view(&self) -> StepView {
        match *self {
            TerminalStep::Write(bytes) => StepView::Write(crate::octets::octets(bytes)),
            TerminalStep::Notice(text) => StepView::Notice(text@),
            TerminalStep::Skip => StepView::Skip,
            TerminalStep::Finish(reason) => StepView::Finish(reason@),
        }
    }
}

/// A notice on a line of its own.
pub open spec fn notice_text(kind: Seq<char>, message: Seq<char>) -> Seq<char> {
    "\r\n[termstage"@ + kind + ": "@ + message + "]\n"@
}

/// What the local terminal does with an output. Output bytes are written, exits,
/// warnings and errors are noted, other control messages are not for a terminal.
pub open spec fn terminal_step(output: OutputView) -> StepView {
    match output {
        OutputView::Bytes(bytes) => StepView::Write(bytes),
        OutputView::Control(message) => match message {
            ServerMessageView::ProcessExited { message } => StepView::Notice(
                notice_text(""@, message),
            ),
            ServerMessageView::Warning { message, .. } => StepView::Notice(
                notice_text(" warning"@, message),
            ),
            ServerMessageView::Error { message, .. } => StepView::Notice(
                notice_text(" error"@, message),
            ),
            _ => StepView::Skip,
        },
        OutputView::Closed(reason) => StepView::Finish(reason),
    }
}

fn notice(kind: &str, message: &str) -> (r: String)
    ensures
        r@ == notice_text(kind@, message@),
{
    let mut text = String::from_str("\r\n[termstage");
    text.append(kind);
    text.append(": ");
    text.append(message);
    text.append("]\n");
    text
}

/// Returns what the local terminal does with an output.
#[must_use]
pub fn step(output: ClientOutput) -> (r: TerminalStep)
    ensures
        r@ == terminal_step(output@),
{
    match output {
        ClientOutput::Bytes(bytes) => TerminalStep::Write(bytes),
        ClientOutput::Control(message) => match message {
            ServerControlMessage::LeaseChanged {
                ..
            } | ServerControlMessage::Ready {
                ..
            } | ServerControlMessage::ReplayFinished | ServerControlMessage::ReplayStarted
            | ServerControlMessage::SizeChanged { .. } => TerminalStep::Skip,
            ServerControlMessage::ProcessExited { message } => TerminalStep::Notice(
                notice("", message.as_str()),
            ),
            ServerControlMessage::Warning { message, .. } => TerminalStep::Notice(
                notice(" warning", message.as_str()),
            ),
            ServerControlMessage::Error { message, .. } => TerminalStep::Notice(
                notice(" error", message.as_str()),
            ),
        },
        ClientOutput::Closed(reason) => TerminalStep::Finish(reason),
    }
}

/// A size that a terminal prints is read back.
pub proof fn law_size_round_trip(cols: u16, rows: u16)
    requires
        crate::protocol::valid_terminal_size(cols, rows),
    ensures
        size_of(
            crate::text::decimal_text(rows as nat) + " "@ + crate::text::decimal_text(cols as nat),
        ) == Ok::<(u16, u16), SttyError>((cols, rows)),
{
    let first = crate::text::decimal_text(rows as nat);
    let second = crate::text::decimal_text(cols as nat);
    reveal_strlit(" ");
    assert(" "@ =~= seq![' ']);
    crate::text::lemma_decimal_is_a_field(rows as nat);
    crate::text::lemma_decimal_is_a_field(cols as nat);
    crate::text::lemma_two_fields(first, second);
    crate::text::law_decimal_round_trip(rows as nat, u16::MAX as nat);
    crate::text::law_decimal_round_trip(cols as nat, u16::MAX as nat);
}

/// The size that `stty size` prints, rows and then columns and a line end, is read; anything
/// that is missing, wrong or too much is named.
pub proof fn law_printed_size_is_read(cols: u16, rows: u16, more: u16)
    ensures
        ({
            let first = crate::text::decimal_text(rows as nat);
            let second = crate::text::decimal_text(cols as nat);
            let third = crate::text::decimal_text(more as nat);
            let line = first + seq![' '] + second;
            &&& printed_size(vstd::utf8::encode_utf8(line + seq!['\n'])) == (if 20 <= cols <= 300
                && 5 <= rows <= 120 {
                Ok::<(u16, u16), SttyError>((cols, rows))
            } else {
                Err(SttyError::SizeInvalid)
            })
            &&& size_of(seq![]) == Err::<(u16, u16), SttyError>(SttyError::RowsMissing)
            &&& size_of(first) == Err::<(u16, u16), SttyError>(SttyError::ColumnsMissing)
            &&& size_of(line + seq![' '] + third) == Err::<(u16, u16), SttyError>(
                SttyError::ExtraFields,
            )
        }),
{
    let first = crate::text::decimal_text(rows as nat);
    let second = crate::text::decimal_text(cols as nat);
    let third = crate::text::decimal_text(more as nat);
    let line = first + seq![' '] + second;
    let printed = line + seq!['\n'];
    vstd::utf8::encode_utf8_valid_utf8(printed);
    vstd::utf8::encode_utf8_decode_utf8(printed);
    lemma_number_is_a_word(rows);
    lemma_number_is_a_word(cols);
    lemma_number_is_a_word(more);
    crate::text::lemma_two_fields(first, second);
    crate::text::law_fields_stand_between_white_space(first, ' ', second + seq![' '] + third);
    crate::text::law_fields_stand_between_white_space(second, ' ', third);
    crate::text::law_fields_stand_between_white_space(third, ' ', seq![]);
    assert(line + seq![' '] + third =~= first + seq![' '] + (second + seq![' '] + third));
    assert(printed =~= line.push('\n'));
    crate::text::law_white_space_is_trimmed(line, '\n');
    assert(line[0] == first[0] && line.last() == second.last());
    crate::text::law_decimal_is_short(rows as nat, 0);
    crate::text::law_decimal_is_short(cols as nat, second.len() - 1);
}

proof fn lemma_number_is_a_word(n: u16)
    ensures
        ({
            let s = crate::text::decimal_text(n as nat);
            &&& s.len() > 0
            &&& forall|i: int| 0 <= i < s.len() ==> !crate::text::ascii_space()(#[trigger] s[i])
            &&& !s.contains(' ') && !s.contains('\t') && !s.contains('\n') && !s.contains('\u{c}')
            &&& !s.contains('\r')
            &&& crate::text::number(s, 10, u16::MAX as nat) == Some(n as nat)
        }),
{
    let s = crate::text::decimal_text(n as nat);
    crate::text::lemma_decimal_is_a_field(n as nat);
    crate::text::law_decimal_round_trip(n as nat, u16::MAX as nat);
    assert forall|i: int| 0 <= i < s.len() implies '0' <= #[trigger] s[i] <= '9' by {
        crate::text::law_decimal_is_short(n as nat, i);
    }
}

/// The state that `stty -g` prints is kept as it is, without the line end, where it takes 1 to
/// 1024 bytes.
pub proof fn law_printed_state_is_kept(state: Seq<char>)
    requires
        state.len() > 0 ==> !crate::text::is_space(state[0]) && !crate::text::is_space(
            state.last(),
        ),
    ensures
        state_of(vstd::utf8::encode_utf8(state.push('\n'))) == (if 1 <= vstd::utf8::encode_utf8(
            state,
        ).len() <= 1024 {
            Ok::<Seq<char>, SttyError>(state)
        } else {
            Err(SttyError::StateInvalid)
        }),
{
    vstd::utf8::encode_utf8_valid_utf8(state.push('\n'));
    vstd::utf8::encode_utf8_decode_utf8(state.push('\n'));
    crate::text::law_white_space_is_trimmed(state, '\n');
    crate::text::lemma_byte_len(state);
}

/// A terminal is written the bytes of the session as they are, is told of an exit, a warning
/// or an error on a line of its own, and ends with the session; nothing else shows on it.
pub proof fn law_terminal_shows_the_session(output: OutputView)
    ensures
        match output {
            OutputView::Bytes(bytes) => terminal_step(output) == StepView::Write(bytes),
            OutputView::Closed(reason) => terminal_step(output) == StepView::Finish(reason),
            OutputView::Control(control) => match control {
                ServerMessageView::ProcessExited { message } => terminal_step(output)
                    == StepView::Notice("\r\n[termstage: "@ + message + "]\n"@),
                ServerMessageView::Warning { message, .. } => terminal_step(output)
                    == StepView::Notice("\r\n[termstage warning: "@ + message + "]\n"@),
                ServerMessageView::Error { message, .. } => terminal_step(output)
                    == StepView::Notice("\r\n[termstage error: "@ + message + "]\n"@),
                _ => terminal_step(output) is Skip,
            },
        },
{
    reveal_strlit("");
    reveal_strlit(": ");
    reveal_strlit(" warning");
    reveal_strlit(" error");
    reveal_strlit("\r\n[termstage");
    reveal_strlit("\r\n[termstage: ");
    reveal_strlit("\r\n[termstage warning: ");
    reveal_strlit("\r\n[termstage error: ");
    assert("\r\n[termstage"@ + ""@ + ": "@ =~= "\r\n[termstage: "@);
    assert("\r\n[termstage"@ + " warning"@ + ": "@ =~= "\r\n[termstage warning: "@);
    assert("\r\n[termstage"@ + " error"@ + ": "@ =~= "\r\n[termstage error: "@);
}

/// Each wrong answer of the terminal is told in its own words.
pub proof fn law_terminal_failures_have_their_words(error: SttyError)
    ensures
        error is StateNotUtf8 ==> error.text() == "stty state was not utf-8"@,
        error is StateInvalid ==> error.text() == "stty returned invalid terminal state"@,
        error is SizeNotUtf8 ==> error.text() == "stty size output was not utf-8"@,
        error is RowsMissing ==> error.text() == "stty size did not include rows"@,
        error is RowsInvalid ==> error.text() == "stty size rows were invalid"@,
        error is ColumnsMissing ==> error.text() == "stty size did not include columns"@,
        error is ColumnsInvalid ==> error.text() == "stty size columns were invalid"@,
        error is ExtraFields ==> error.text() == "stty size returned extra fields"@,
        error is SizeInvalid ==> error.text() == "stty size was outside supported terminal bounds"@,
{
}

} // verus!
