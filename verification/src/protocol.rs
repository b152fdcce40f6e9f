//! Browser terminal protocol types.
//!
//! Binary WebSocket frames carry raw terminal bytes. Text frames carry these
//! validated control messages.

use subtle::ConstantTimeEq;
use vstd::prelude::*;

verus! {

/// Longest session name, in bytes.
pub const SESSION_NAME_MAX_BYTES: usize = 64;

/// Longest browser-visible message, in bytes.
pub const SAFE_MESSAGE_MAX_BYTES: usize = 512;

/// Size of an access token, in bytes.
pub const ACCESS_TOKEN_BYTES: usize = 32;

/// Smallest terminal column count.
pub const TERMINAL_COLS_MIN: u16 = 20;

/// Largest terminal column count.
pub const TERMINAL_COLS_MAX: u16 = 300;

/// Smallest terminal row count.
pub const TERMINAL_ROWS_MIN: u16 = 5;

/// Largest terminal row count.
pub const TERMINAL_ROWS_MAX: u16 = 120;

/// Protocol validation failure.
#[derive(Debug, Clone, Copy, PartialEq, Eq, Structural)]
pub enum ProtocolError {
    /// A session name is empty, too long, or contains disallowed bytes.
    InvalidSessionName,
    /// A terminal column count is outside the supported range.
    InvalidTerminalCols,
    /// A terminal row count is outside the supported range.
    InvalidTerminalRows,
    /// A server-visible message is too long.
    SafeMessageTooLong,
    /// Random token generation failed.
    TokenGenerationFailed,
    /// A URL token was malformed.
    InvalidAccessToken,
    /// A heartbeat sequence increment would overflow.
    HeartbeatOverflow,
}

impl ProtocolError {
    /// The text that describes the failure.
    pub open spec fn text(self) -> Seq<char> {
        match self {
            ProtocolError::InvalidSessionName => "invalid session name"@,
            ProtocolError::InvalidTerminalCols => "terminal columns must be in 20..=300"@,
            ProtocolError::InvalidTerminalRows => "terminal rows must be in 5..=120"@,
            ProtocolError::SafeMessageTooLong => "safe message exceeds 512 bytes"@,
            ProtocolError::TokenGenerationFailed => "failed to generate access token"@,
            ProtocolError::InvalidAccessToken => "invalid access token"@,
            ProtocolError::HeartbeatOverflow => "heartbeat sequence overflow"@,
        }
    }

    /// Describes the failure.
    pub fn message(self) -> (r: &'static str)
        ensures
            r@ == self.text(),
    {
        match self {
            ProtocolError::InvalidSessionName => "invalid session name",
            ProtocolError::InvalidTerminalCols => "terminal columns must be in 20..=300",
            ProtocolError::InvalidTerminalRows => "terminal rows must be in 5..=120",
            ProtocolError::SafeMessageTooLong => "safe message exceeds 512 bytes",
            ProtocolError::TokenGenerationFailed => "failed to generate access token",
            ProtocolError::InvalidAccessToken => "invalid access token",
            ProtocolError::HeartbeatOverflow => "heartbeat sequence overflow",
        }
    }
}

/// The characters of a session name.
pub open spec fn is_name_char(c: char) -> bool {
    ||| 'A' <= c <= 'Z'
    ||| 'a' <= c <= 'z'
    ||| '0' <= c <= '9'
    ||| c == '_'
    ||| c == '.'
    ||| c == '-'
}

/// The texts that name a session.
pub open spec fn valid_session_name(s: Seq<char>) -> bool {
    &&& 1 <= s.len() <= SESSION_NAME_MAX_BYTES
    &&& forall|i: int| 0 <= i < s.len() ==> is_name_char(#[trigger] s[i])
}

/// The texts of several session names.
pub open spec fn name_texts(list: Seq<SessionName>) -> Seq<Seq<char>> {
    list.map_values(|name: SessionName| name@)
}

/// Valid tmux/session identifier for browser terminal mode.
#[derive(Debug, Hash, PartialOrd, Ord)]
pub struct SessionName(String);

impl View for SessionName {
    type V = Seq<char>;

    closed spec fn view(&self) -> Seq<char> {
        self.0@
    }
}

impl SessionName {
    /// A session name holds a valid name.
    #[verifier::type_invariant]
    pub open spec fn valid(&self) -> bool {
        valid_session_name(self@)
    }

    /// Creates a validated session name.
    ///
    /// The name has 1 to 64 characters out of `[A-Za-z0-9_.-]`.
    pub fn new(value: &str) -> (r: Result<Self, ProtocolError>)
        ensures
            match r {
                Ok(name) => valid_session_name(value@) && name@ == value@ && name.valid(),
                Err(error) => !valid_session_name(value@) && error
                    == ProtocolError::InvalidSessionName,
            },
    {
        let chars = crate::text::chars_of(value);
        if chars.len() == 0 || chars.len() > SESSION_NAME_MAX_BYTES {
            return Err(ProtocolError::InvalidSessionName);
        }
        let mut i: usize = 0;
        while i < chars.len()
            invariant
                i <= chars@.len(),
                chars@ == value@,
                forall|k: int| 0 <= k < i ==> is_name_char(#[trigger] chars@[k]),
            decreases chars@.len() - i,
        {
            let c = chars[i];
            let accepted = ('A' <= c && c <= 'Z') || ('a' <= c && c <= 'z') || ('0' <= c && c
                <= '9') || c == '_' || c == '.' || c == '-';
            if !accepted {
                return Err(ProtocolError::InvalidSessionName);
            }
            i += 1;
        }
        Ok(SessionName(value.to_owned()))
    }

    /// Returns the validated session name as a string slice.
    #[must_use]
    pub fn as_str(&self) -> (r: &str)
        ensures
            r@ == self@,
            valid_session_name(r@),
    {
        proof {
            use_type_invariant(self);
        }
        self.0.as_str()
    }
}

impl Clone for SessionName {
    fn clone(&self) -> (r: Self)
        ensures
            r == *self,
    {
        proof {
            use_type_invariant(self);
        }
        SessionName(self.0.clone())
    }
}

impl PartialEq for SessionName {
    fn eq(&self, other: &Self) -> (r: bool) {
        self.0 == other.0
    }
}

impl vstd::std_specs::cmp::PartialEqSpecImpl for SessionName {
    open spec fn obeys_eq_spec() -> bool {
        true
    }

    open spec fn eq_spec(&self, other: &Self) -> bool {
        self@ == other@
    }
}

impl Eq for SessionName {

}

impl std::str::FromStr for SessionName {
    type Err = ProtocolError;

    fn from_str(value: &str) -> (r: Result<Self, ProtocolError>)
        ensures
            match r {
                Ok(name) => valid_session_name(value@) && name@ == value@ && name.valid(),
                Err(error) => !valid_session_name(value@) && error
                    == ProtocolError::InvalidSessionName,
            },
    {
        SessionName::new(value)
    }
}

impl TryFrom<String> for SessionName {
    type Error = ProtocolError;

    fn try_from(value: String) -> (r: Result<Self, ProtocolError>)
        ensures
            match r {
                Ok(name) => valid_session_name(value@) && name@ == value@ && name.valid(),
                Err(error) => !valid_session_name(value@) && error
                    == ProtocolError::InvalidSessionName,
            },
    {
        SessionName::new(value.as_str())
    }
}

/// A name is known by its text, not as a value: what it is made of is stated at
/// `try_from` itself.
impl vstd::std_specs::convert::TryFromSpecImpl<String> for SessionName {
    open spec fn obeys_try_from_spec() -> bool {
        false
    }

    open spec fn try_from_spec(value: String) -> Result<Self, ProtocolError> {
        arbitrary()
    }
}

/// Valid terminal column count.
#[derive(Debug, Clone, Copy, PartialEq, Eq, Hash, Structural)]
pub struct TerminalCols(u16);

impl View for TerminalCols {
    type V = u16;

    closed spec fn view(&self) -> u16 {
        self.0
    }
}

impl TerminalCols {
    /// A column count is in `20..=300`.
    #[verifier::type_invariant]
    pub open spec fn valid(&self) -> bool {
        TERMINAL_COLS_MIN <= self@ <= TERMINAL_COLS_MAX
    }

    /// Creates a validated terminal column count, in `20..=300`.
    pub fn new(value: u16) -> (r: Result<Self, ProtocolError>)
        ensures
            match r {
                Ok(cols) => TERMINAL_COLS_MIN <= value <= TERMINAL_COLS_MAX && cols@ == value,
                Err(error) => !(TERMINAL_COLS_MIN <= value <= TERMINAL_COLS_MAX) && error
                    == ProtocolError::InvalidTerminalCols,
            },
    {
        if TERMINAL_COLS_MIN <= value && value <= TERMINAL_COLS_MAX {
            Ok(TerminalCols(value))
        } else {
            Err(ProtocolError::InvalidTerminalCols)
        }
    }

    /// Returns the column count as `u16`.
    #[must_use]
    pub fn get(self) -> (r: u16)
        ensures
            r == self@,
            TERMINAL_COLS_MIN <= r <= TERMINAL_COLS_MAX,
    {
        proof {
            use_type_invariant(&self);
        }
        self.0
    }
}

impl TryFrom<u16> for TerminalCols {
    type Error = ProtocolError;

    fn try_from(value: u16) -> (r: Result<Self, ProtocolError>)
        ensures
            match r {
                Ok(cols) => TERMINAL_COLS_MIN <= value <= TERMINAL_COLS_MAX && cols@ == value,
                Err(error) => !(TERMINAL_COLS_MIN <= value <= TERMINAL_COLS_MAX) && error
                    == ProtocolError::InvalidTerminalCols,
            },
    {
        TerminalCols::new(value)
    }
}

impl vstd::std_specs::convert::TryFromSpecImpl<u16> for TerminalCols {
    open spec fn obeys_try_from_spec() -> bool {
        true
    }

    closed spec fn try_from_spec(value: u16) -> Result<Self, ProtocolError> {
        if TERMINAL_COLS_MIN <= value <= TERMINAL_COLS_MAX {
            Ok(TerminalCols(value))
        } else {
            Err(ProtocolError::InvalidTerminalCols)
        }
    }
}

/// Valid terminal row count.
#[derive(Debug, Clone, Copy, PartialEq, Eq, Hash, Structural)]
pub struct TerminalRows(u16);

impl View for TerminalRows {
    type V = u16;

    closed spec fn view(&self) -> u16 {
        self.0
    }
}

impl TerminalRows {
    /// A row count is in `5..=120`.
    #[verifier::type_invariant]
    pub open spec fn valid(&self) -> bool {
        TERMINAL_ROWS_MIN <= self@ <= TERMINAL_ROWS_MAX
    }

    /// Creates a validated terminal row count, in `5..=120`.
    pub fn new(value: u16) -> (r: Result<Self, ProtocolError>)
        ensures
            match r {
                Ok(rows) => TERMINAL_ROWS_MIN <= value <= TERMINAL_ROWS_MAX && rows@ == value,
                Err(error) => !(TERMINAL_ROWS_MIN <= value <= TERMINAL_ROWS_MAX) && error
                    == ProtocolError::InvalidTerminalRows,
            },
    {
        if TERMINAL_ROWS_MIN <= value && value <= TERMINAL_ROWS_MAX {
            Ok(TerminalRows(value))
        } else {
            Err(ProtocolError::InvalidTerminalRows)
        }
    }

    /// Returns the row count as `u16`.
    #[must_use]
    pub fn get(self) -> (r: u16)
        ensures
            r == self@,
            TERMINAL_ROWS_MIN <= r <= TERMINAL_ROWS_MAX,
    {
        proof {
            use_type_invariant(&self);
        }
        self.0
    }
}

impl TryFrom<u16> for TerminalRows {
    type Error = ProtocolError;

    fn try_from(value: u16) -> (r: Result<Self, ProtocolError>)
        ensures
            match r {
                Ok(rows) => TERMINAL_ROWS_MIN <= value <= TERMINAL_ROWS_MAX && rows@ == value,
                Err(error) => !(TERMINAL_ROWS_MIN <= value <= TERMINAL_ROWS_MAX) && error
                    == ProtocolError::InvalidTerminalRows,
            },
    {
        TerminalRows::new(value)
    }
}

impl vstd::std_specs::convert::TryFromSpecImpl<u16> for TerminalRows {
    open spec fn obeys_try_from_spec() -> bool {
        true
    }

    closed spec fn try_from_spec(value: u16) -> Result<Self, ProtocolError> {
        if TERMINAL_ROWS_MIN <= value <= TERMINAL_ROWS_MAX {
            Ok(TerminalRows(value))
        } else {
            Err(ProtocolError::InvalidTerminalRows)
        }
    }
}

/// Valid terminal dimensions.
#[derive(Debug, Clone, Copy, PartialEq, Eq, Hash, Structural)]
pub struct TerminalSize {
    /// Terminal columns.
    pub cols: TerminalCols,
    /// Terminal rows.
    pub rows: TerminalRows,
}

impl View for TerminalSize {
    type V = (u16, u16);

    open spec fn view(&self) -> (u16, u16) {
        (self.cols@, self.rows@)
    }
}

/// The column and row counts of a terminal.
pub open spec fn valid_terminal_size(cols: u16, rows: u16) -> bool {
    &&& TERMINAL_COLS_MIN <= cols <= TERMINAL_COLS_MAX
    &&& TERMINAL_ROWS_MIN <= rows <= TERMINAL_ROWS_MAX
}

/// Why a terminal cannot have these column and row counts. The columns are judged first.
pub open spec fn size_error(cols: u16, rows: u16) -> Option<ProtocolError> {
    if !(TERMINAL_COLS_MIN <= cols <= TERMINAL_COLS_MAX) {
        Some(ProtocolError::InvalidTerminalCols)
    } else if !(TERMINAL_ROWS_MIN <= rows <= TERMINAL_ROWS_MAX) {
        Some(ProtocolError::InvalidTerminalRows)
    } else {
        None
    }
}

impl TerminalSize {
    /// Creates a validated terminal size.
    ///
    /// The column count is judged first.
    pub fn new(cols: u16, rows: u16) -> (r: Result<Self, ProtocolError>)
        ensures
            match r {
                Ok(size) => valid_terminal_size(cols, rows) && size@ == (cols, rows),
                Err(error) => size_error(cols, rows) == Some(error),
            },
    {
        let cols = match TerminalCols::new(cols) {
            Ok(cols) => cols,
            Err(error) => return Err(error),
        };
        let rows = match TerminalRows::new(rows) {
            Ok(rows) => rows,
            Err(error) => return Err(error),
        };
        Ok(TerminalSize { cols, rows })
    }
}

/// Monotonic heartbeat sequence.
#[derive(Debug, Clone, Copy, PartialEq, Eq, PartialOrd, Ord, Hash, Structural)]
pub struct HeartbeatSequence(u64);

impl View for HeartbeatSequence {
    type V = u64;

    closed spec fn view(&self) -> u64 {
        self.0
    }
}

impl HeartbeatSequence {
    /// Creates a heartbeat sequence value.
    #[must_use]
    pub fn new(value: u64) -> (r: Self)
        ensures
            r@ == value,
    {
        HeartbeatSequence(value)
    }

    /// Returns the numeric sequence.
    #[must_use]
    pub fn get(self) -> (r: u64)
        ensures
            r == self@,
    {
        self.0
    }

    /// Returns the next sequence, or an error at `u64::MAX`.
    pub fn next(self) -> (r: Result<Self, ProtocolError>)
        ensures
            match r {
                Ok(next) => self@ < u64::MAX && next@ == self@ + 1,
                Err(error) => self@ == u64::MAX && error == ProtocolError::HeartbeatOverflow,
            },
    {
        match self.0.checked_add(1) {
            Some(value) => Ok(HeartbeatSequence(value)),
            None => Err(ProtocolError::HeartbeatOverflow),
        }
    }
}

/// Server-generated browser-visible message with bounded size.
#[derive(Debug)]
pub struct SafeMessage(String);

impl View for SafeMessage {
    type V = Seq<char>;

    closed spec fn view(&self) -> Seq<char> {
        self.0@
    }
}

impl SafeMessage {
    /// Creates a bounded safe message of at most 512 bytes.
    pub fn new(value: &str) -> (r: Result<Self, ProtocolError>)
        ensures
            match r {
                Ok(message) => crate::text::byte_len(value@) <= SAFE_MESSAGE_MAX_BYTES && message@
                    == value@,
                Err(error) => crate::text::byte_len(value@) > SAFE_MESSAGE_MAX_BYTES && error
                    == ProtocolError::SafeMessageTooLong,
            },
    {
        if value.as_bytes().len() <= SAFE_MESSAGE_MAX_BYTES {
            Ok(SafeMessage(value.to_owned()))
        } else {
            Err(ProtocolError::SafeMessageTooLong)
        }
    }

    /// Returns the safe message as a string slice.
    #[must_use]
    pub fn as_str(&self) -> (r: &str)
        ensures
            r@ == self@,
    {
        self.0.as_str()
    }

    /// Creates a safe message from a trusted static string.
    #[must_use]
    pub fn from_static(value: &'static str) -> (r: Self)
        ensures
            r@ == value@,
    {
        SafeMessage(value.to_owned())
    }
}

impl Clone for SafeMessage {
    fn clone(&self) -> (r: Self)
        ensures
            r == *self,
    {
        SafeMessage(self.0.clone())
    }
}

impl PartialEq for SafeMessage {
    fn eq(&self, other: &Self) -> (r: bool) {
        self.0 == other.0
    }
}

impl vstd::std_specs::cmp::PartialEqSpecImpl for SafeMessage {
    open spec fn obeys_eq_spec() -> bool {
        true
    }

    open spec fn eq_spec(&self, other: &Self) -> bool {
        self@ == other@
    }
}

impl Eq for SafeMessage {

}

/// `getrandom::Error`, why the operating system gave no random bytes.
#[verifier::external_type_specification]
#[verifier::external_body]
pub struct ExRandomError(getrandom::Error);

/// `getrandom::fill` overwrites the buffer with random bytes of the operating
/// system. Nothing is claimed of the bytes, nor of when the call fails.
#[verifier::external_body]
fn fill_random(bytes: &mut [u8; 32]) -> (r: Result<(), getrandom::Error>) {
    getrandom::fill(bytes)
}

/// `subtle::ConstantTimeEq::ct_eq` on byte slices is true exactly where the
/// slices hold the same bytes.
#[verifier::external_body]
fn constant_time_bytes_eq(a: &[u8], b: &[u8]) -> (r: bool)
    ensures
        r == (a@ == b@),
{
    a.ct_eq(b).into()
}

/// The lower-case hexadecimal digit for `n`.
pub open spec fn nibble_char(n: int) -> char {
    if n < 10 {
        ('0' as u32 + n) as char
    } else {
        ('a' as u32 + n - 10) as char
    }
}

/// `bytes` in hexadecimal, two digits for each byte.
pub open spec fn hex_text(bytes: Seq<u8>) -> Seq<char> {
    Seq::new(
        bytes.len() * 2,
        |i: int|
            nibble_char(
                if i % 2 == 0 {
                    bytes[i / 2] as int / 16
                } else {
                    bytes[i / 2] as int % 16
                },
            ),
    )
}

/// The bytes that a URL token writes, where it is one: two hexadecimal digits
/// of either case for each of 32 bytes.
pub open spec fn token_bytes(s: Seq<char>) -> Option<Seq<u8>> {
    if s.len() == ACCESS_TOKEN_BYTES * 2 && forall|i: int|
        0 <= i < s.len() ==> crate::text::digit_value(#[trigger] s[i]) is Some {
        Some(
            Seq::new(
                ACCESS_TOKEN_BYTES as nat,
                |i: int|
                    (crate::text::digit_value(s[2 * i])->0 * 16 + crate::text::digit_value(
                        s[2 * i + 1],
                    )->0) as u8,
            ),
        )
    } else {
        None
    }
}

/// Per-server 256-bit access token.
#[derive(PartialEq, Eq)]
pub struct AccessToken([u8; 32]);

impl View for AccessToken {
    type V = Seq<u8>;

    closed spec fn view(&self) -> Seq<u8> {
        self.0@
    }
}

impl AccessToken {
    /// Generates a fresh token from the operating system random source.
    ///
    /// Which bytes the token holds, and whether there is one, is up to the
    /// operating system.
    pub fn generate() -> (r: Result<Self, ProtocolError>)
        ensures
            match r {
                Ok(token) => token@.len() == ACCESS_TOKEN_BYTES,
                Err(error) => error == ProtocolError::TokenGenerationFailed,
            },
    {
        let mut bytes: [u8; 32] = [0;32];
        let filled = fill_random(&mut bytes);
        AccessToken::from_random(filled, bytes)
    }

    /// The token that a filled buffer gives, or the failure to fill it.
    pub fn from_random(filled: Result<(), getrandom::Error>, bytes: [u8; 32]) -> (r: Result<
        Self,
        ProtocolError,
    >)
        ensures
            match filled {
                Ok(_) => r matches Ok(token) && token@ == bytes@,
                Err(_) => r matches Err(error) && error == ProtocolError::TokenGenerationFailed,
            },
    {
        match filled {
            Ok(_) => Ok(AccessToken::from_bytes(bytes)),
            Err(_) => Err(ProtocolError::TokenGenerationFailed),
        }
    }

    /// Creates a token from raw bytes.
    #[must_use]
    pub fn from_bytes(bytes: [u8; 32]) -> (r: Self)
        ensures
            r@ == bytes@,
    {
        AccessToken(bytes)
    }

    /// Returns true when two tokens match using constant-time comparison.
    #[must_use]
    pub fn constant_time_eq(&self, other: &Self) -> (r: bool)
        ensures
            r == (self@ == other@),
    {
        constant_time_bytes_eq(&self.0, &other.0)
    }

    /// Returns the token bytes.
    #[must_use]
    pub fn as_bytes(&self) -> (r: &[u8; 32])
        ensures
            r@ == self@,
    {
        &self.0
    }

    /// Encodes the token for explicit browser launch URLs.
    #[must_use]
    pub fn to_url_token(&self) -> (r: String)
        ensures
            r@ == hex_text(self@),
            r@.len() == 2 * ACCESS_TOKEN_BYTES,
    {
        let mut output = String::new();
        let mut i: usize = 0;
        while i < 32
            invariant
                i <= 32,
                self@.len() == 32,
                output@ == hex_text(self@.take(i as int)),
            decreases 32 - i,
        {
            let ghost before = output@;
            push_hex_byte(self.0[i], &mut output);
            i += 1;
            proof {
                let done = hex_text(self@.take(i as int));
                assert forall|k: int| 0 <= k < done.len() implies output@[k] == done[k] by {
                    if k < before.len() {
                        assert(self@.take(i as int)[k / 2] == self@.take(i - 1)[k / 2]);
                    }
                }
                assert(output@ =~= done);
            }
        }
        proof {
            assert(self@.take(32) == self@);
        }
        output
    }

    /// Reads a URL token.
    pub fn parse(value: &str) -> (r: Result<Self, ProtocolError>)
        ensures
            match r {
                Ok(token) => token_bytes(value@) == Some(token@),
                Err(error) => token_bytes(value@) is None && error
                    == ProtocolError::InvalidAccessToken,
            },
    {
        let chars = crate::text::chars_of(value);
        if chars.len() != ACCESS_TOKEN_BYTES * 2 {
            return Err(ProtocolError::InvalidAccessToken);
        }
        let mut bytes: [u8; 32] = [0;32];
        let mut i: usize = 0;
        while i < 32
            invariant
                i <= 32,
                chars@ == value@,
                chars@.len() == 64,
                forall|k: int|
                    0 <= k < 2 * i ==> crate::text::digit_value(#[trigger] chars@[k]) is Some,
                forall|k: int|
                    0 <= k < i ==> #[trigger] bytes@[k] == (crate::text::digit_value(chars@[2 * k])->0
                        * 16 + crate::text::digit_value(chars@[2 * k + 1])->0) as u8,
            decreases 32 - i,
        {
            let high = match decode_hex_nibble(chars[2 * i]) {
                Ok(high) => high,
                Err(error) => return Err(error),
            };
            let low = match decode_hex_nibble(chars[2 * i + 1]) {
                Ok(low) => low,
                Err(error) => return Err(error),
            };
            bytes[i] = high * 16 + low;
            i += 1;
        }
        proof {
            assert(bytes@ =~= token_bytes(value@)->0);
        }
        Ok(AccessToken(bytes))
    }

    /// The debug form, which keeps the bytes secret.
    #[must_use]
    pub fn debug_text(&self) -> (r: &'static str)
        ensures
            r@ == "AccessToken([REDACTED])"@,
    {
        "AccessToken([REDACTED])"
    }
}

impl Clone for AccessToken {
    fn clone(&self) -> (r: Self)
        ensures
            r == *self,
    {
        AccessToken(self.0)
    }
}

impl std::str::FromStr for AccessToken {
    type Err = ProtocolError;

    fn from_str(value: &str) -> (r: Result<Self, ProtocolError>)
        ensures
            match r {
                Ok(token) => token_bytes(value@) == Some(token@),
                Err(error) => token_bytes(value@) is None && error
                    == ProtocolError::InvalidAccessToken,
            },
    {
        AccessToken::parse(value)
    }
}

fn hex_digit(n: u8) -> (r: char)
    requires
        n < 16,
    ensures
        r == nibble_char(n as int),
{
    if n < 10 {
        (48 + n) as char
    } else {
        (87 + n) as char
    }
}

fn push_hex_byte(byte: u8, output: &mut String)
    ensures
        final(output)@ == old(output)@.push(nibble_char(byte as int / 16)).push(
            nibble_char(byte as int % 16),
        ),
{
    output.push(hex_digit(byte / 16));
    output.push(hex_digit(byte % 16));
}

fn decode_hex_nibble(c: char) -> (r: Result<u8, ProtocolError>)
    ensures
        match r {
            Ok(value) => crate::text::digit_value(c) == Some(value as nat) && value < 16,
            Err(error) => crate::text::digit_value(c) is None && error
                == ProtocolError::InvalidAccessToken,
        },
{
    if '0' <= c && c <= '9' {
        Ok((c as u32 - '0' as u32) as u8)
    } else if 'a' <= c && c <= 'f' {
        Ok((c as u32 - 'a' as u32 + 10) as u8)
    } else if 'A' <= c && c <= 'F' {
        Ok((c as u32 - 'A' as u32 + 10) as u8)
    } else {
        Err(ProtocolError::InvalidAccessToken)
    }
}

/// Reading a written token gives its bytes back.
pub proof fn law_token_round_trip(bytes: Seq<u8>)
    requires
        bytes.len() == ACCESS_TOKEN_BYTES,
    ensures
        token_bytes(hex_text(bytes)) == Some(bytes),
{
    let s = hex_text(bytes);
    assert forall|i: int| 0 <= i < s.len() implies crate::text::digit_value(#[trigger] s[i])
        == Some(
        (if i % 2 == 0 {
            bytes[i / 2] as int / 16
        } else {
            bytes[i / 2] as int % 16
        }) as nat,
    ) by {}
    assert(token_bytes(s)->0 =~= bytes) by {
        assert forall|i: int| 0 <= i < ACCESS_TOKEN_BYTES implies token_bytes(s)->0[i]
            == bytes[i] by {
            assert((2 * i) / 2 == i && (2 * i + 1) / 2 == i);
            assert(crate::text::digit_value(s[2 * i]) is Some);
            assert(crate::text::digit_value(s[2 * i + 1]) is Some);
        }
    }
}

/// Browser viewport origin along one axis of the terminal.
#[derive(Debug, Clone, Copy, PartialEq, Eq, Hash, Structural)]
pub struct ViewportOrigin(u16);

impl View for ViewportOrigin {
    type V = u16;

    closed spec fn view(&self) -> u16 {
        self.0
    }
}

impl ViewportOrigin {
    /// Creates a viewport origin.
    #[must_use]
    pub fn new(value: u16) -> (r: Self)
        ensures
            r@ == value,
    {
        ViewportOrigin(value)
    }

    /// Returns the zero-based cell index.
    #[must_use]
    pub fn get(self) -> (r: u16)
        ensures
            r == self@,
    {
        self.0
    }
}

/// Browser-to-server control frame.
#[derive(Debug, Clone, Copy, PartialEq, Eq, Structural)]
pub enum ClientControlMessage {
    /// Take over terminal control.
    AcquireControl,
    /// Resize the PTY to the validated dimensions.
    Resize {
        /// Terminal columns.
        cols: TerminalCols,
        /// Terminal rows.
        rows: TerminalRows,
    },
    /// Move the visible part of the screen.
    Viewport {
        /// First visible column; the cursor is followed where it is absent.
        col: Option<ViewportOrigin>,
        /// First visible row; the cursor is followed where it is absent.
        row: Option<ViewportOrigin>,
    },
    /// Browser heartbeat with a monotonic sequence.
    Heartbeat {
        /// Heartbeat sequence.
        sequence: HeartbeatSequence,
    },
}

/// Stable warning reason codes emitted by the server.
#[derive(Debug, Clone, Copy, PartialEq, Eq, Structural)]
pub enum WarningCode {
    /// The client output mailbox could not keep up.
    ClientBackpressure,
}

/// Stable error reason codes emitted by the server.
#[derive(Debug, Clone, Copy, PartialEq, Eq, Structural)]
pub enum ErrorCode {
    /// A protocol message was malformed or invalid.
    Protocol,
    /// The runtime could not complete the requested operation.
    Runtime,
    /// The request failed a security check.
    Forbidden,
}

/// Who may write to the terminal.
#[derive(Debug, Clone, Copy, PartialEq, Eq, Structural)]
pub enum LeaseOwner {
    /// The local terminal.
    Terminal,
    /// A browser.
    Browser,
    /// A semantic API client.
    Agent,
}

/// The contents of a [`ServerControlMessage`].
#[allow(inconsistent_fields)]
pub enum ServerMessageView {
    Ready { session: Seq<char> },
    LeaseChanged { owner: LeaseOwner, epoch: u64 },
    SizeChanged { size: TerminalSize },
    ReplayStarted,
    ReplayFinished,
    ProcessExited { message: Seq<char> },
    Warning { code: WarningCode, message: Seq<char> },
    Error { code: ErrorCode, message: Seq<char> },
}

/// Server-to-browser control frame.
#[allow(inconsistent_fields)]
#[derive(Debug, PartialEq, Eq)]
pub enum ServerControlMessage {
    /// Runtime session is ready.
    Ready {
        /// Active session name.
        session: SessionName,
    },
    /// Terminal control passed to another owner.
    LeaseChanged {
        /// Current owner.
        owner: LeaseOwner,
        /// Number of the ownership change.
        epoch: u64,
    },
    /// The terminal has new dimensions.
    SizeChanged {
        /// Current dimensions.
        size: TerminalSize,
    },
    /// Retained output follows.
    ReplayStarted,
    /// All retained output was sent.
    ReplayFinished,
    /// The terminal process exited while the server kept the session open.
    ProcessExited {
        /// Browser-visible safe message.
        message: SafeMessage,
    },
    /// Non-fatal server warning.
    Warning {
        /// Stable warning code.
        code: WarningCode,
        /// Browser-visible safe message.
        message: SafeMessage,
    },
    /// Fatal server/runtime error.
    Error {
        /// Stable error code.
        code: ErrorCode,
        /// Browser-visible safe message.
        message: SafeMessage,
    },
}

impl View for ServerControlMessage {
    type V = ServerMessageView;

    open spec fn view(&self) -> ServerMessageView {
        match *self {
            ServerControlMessage::Ready { session } => ServerMessageView::Ready {
                session: session@,
            },
            ServerControlMessage::LeaseChanged {
                owner,
                epoch,
            } => ServerMessageView::LeaseChanged { owner, epoch },
            ServerControlMessage::SizeChanged { size } => ServerMessageView::SizeChanged { size },
            ServerControlMessage::ReplayStarted => ServerMessageView::ReplayStarted,
            ServerControlMessage::ReplayFinished => ServerMessageView::ReplayFinished,
            ServerControlMessage::ProcessExited { message } => ServerMessageView::ProcessExited {
                message: message@,
            },
            ServerControlMessage::Warning { code, message } => ServerMessageView::Warning {
                code,
                message: message@,
            },
            ServerControlMessage::Error { code, message } => ServerMessageView::Error {
                code,
                message: message@,
            },
        }
    }
}

impl Clone for ServerControlMessage {
    fn clone(&self) -> (r: Self)
        ensures
            r == *self,
    {
        match self {
            ServerControlMessage::Ready { session } => ServerControlMessage::Ready {
                session: session.clone(),
            },
            ServerControlMessage::LeaseChanged {
                owner,
                epoch,
            } => ServerControlMessage::LeaseChanged { owner: *owner, epoch: *epoch },
            ServerControlMessage::SizeChanged { size } => ServerControlMessage::SizeChanged {
                size: *size,
            },
            ServerControlMessage::ReplayStarted => ServerControlMessage::ReplayStarted,
            ServerControlMessage::ReplayFinished => ServerControlMessage::ReplayFinished,
            ServerControlMessage::ProcessExited {
                message,
            } => ServerControlMessage::ProcessExited { message: message.clone() },
            ServerControlMessage::Warning { code, message } => ServerControlMessage::Warning {
                code: *code,
                message: message.clone(),
            },
            ServerControlMessage::Error { code, message } => ServerControlMessage::Error {
                code: *code,
                message: message.clone(),
            },
        }
    }
}

/// A session name has 1 to 64 characters, each a letter or a digit of ASCII, an underscore, a
/// dot or a hyphen.
pub proof fn law_session_names_are_plain(s: Seq<char>, c: char)
    ensures
        !valid_session_name(seq![]),
        valid_session_name(s.push(c)) <==> {
            &&& s.len() == 0 || valid_session_name(s)
            &&& s.len() < 64
            &&& {
                ||| 'A' <= c <= 'Z'
                ||| 'a' <= c <= 'z'
                ||| '0' <= c <= '9'
                ||| c == '_'
                ||| c == '.'
                ||| c == '-'
            }
        },
{
    let longer = s.push(c);
    if valid_session_name(longer) {
        assert(is_name_char(longer[s.len() as int]));
        assert forall|i: int| 0 <= i < s.len() implies is_name_char(#[trigger] s[i]) by {
            assert(is_name_char(longer[i]));
        }
    }
}

/// A terminal has 20 to 300 columns and 5 to 120 rows. Where both are wrong, the columns are
/// named.
pub proof fn law_terminal_sizes_are_bounded(cols: u16, rows: u16)
    ensures
        valid_terminal_size(cols, rows) <==> 20 <= cols <= 300 && 5 <= rows <= 120,
        size_error(cols, rows) is None <==> valid_terminal_size(cols, rows),
        size_error(cols, rows) == Some(ProtocolError::InvalidTerminalCols) <==> cols < 20 || cols
            > 300,
        size_error(cols, rows) == Some(ProtocolError::InvalidTerminalRows) <==> 20 <= cols <= 300
            && (rows < 5 || rows > 120),
{
}

/// A token is written as 64 hexadecimal digits, two for each of its 32 bytes, the higher
/// first; it may be read in capitals too. Any other text is no token.
pub proof fn law_tokens_are_hexadecimal(s: Seq<char>, i: int)
    requires
        0 <= i < 32,
    ensures
        match token_bytes(s) {
            Some(bytes) => {
                &&& s.len() == 64
                &&& bytes.len() == 32
                &&& crate::text::number(s.subrange(2 * i, 2 * i + 2), 16, 255) == Some(
                    bytes[i] as nat,
                )
            },
            None => s.len() != 64 || exists|k: int|
                0 <= k < s.len() && {
                    &&& !('0' <= #[trigger] s[k] <= '9')
                    &&& !('a' <= s[k] <= 'f')
                    &&& !('A' <= s[k] <= 'F')
                },
        },
{
    if let Some(bytes) = token_bytes(s) {
        let pair = s.subrange(2 * i, 2 * i + 2);
        reveal_with_fuel(crate::text::digits_value, 3);
        assert(pair[0] == s[2 * i] && pair[1] == s[2 * i + 1]);
        assert(crate::text::digit_value(s[2 * i]) is Some);
        assert(crate::text::digit_value(s[2 * i + 1]) is Some);
        assert(pair.drop_last() =~= seq![pair[0]]);
        assert(pair.drop_last().drop_last() =~= seq![]);
    } else if s.len() == 64 {
        let k = choose|k: int|
            0 <= k < s.len() && crate::text::digit_value(#[trigger] s[k]) is None;
        assert(0 <= k < s.len() && crate::text::digit_value(s[k]) is None);
    }
}

/// A written token holds digits and small letters alone.
pub proof fn law_written_tokens_are_small(bytes: Seq<u8>, i: int)
    requires
        0 <= i < hex_text(bytes).len(),
    ensures
        hex_text(bytes).len() == 2 * bytes.len(),
        '0' <= hex_text(bytes)[i] <= '9' || 'a' <= hex_text(bytes)[i] <= 'f',
{
}

/// Each failed validation is told in its own words, with the limits that hold.
pub proof fn law_protocol_failures_have_their_words(error: ProtocolError)
    ensures
        error is InvalidSessionName ==> error.text() == "invalid session name"@,
        error is InvalidTerminalCols ==> error.text() == "terminal columns must be in 20..=300"@,
        error is InvalidTerminalRows ==> error.text() == "terminal rows must be in 5..=120"@,
        error is SafeMessageTooLong ==> error.text() == "safe message exceeds 512 bytes"@,
        error is TokenGenerationFailed ==> error.text() == "failed to generate access token"@,
        error is InvalidAccessToken ==> error.text() == "invalid access token"@,
        error is HeartbeatOverflow ==> error.text() == "heartbeat sequence overflow"@,
{
}

} // verus!
