//! Request handling of the browser terminal server.

use vstd::prelude::*;

use crate::backend::{
    BackendAdapter, BackendCall, BackendError, BackendScreenSnapshot, BackendScrollDirection,
    SessionRefView, SnapshotView,
};
use crate::clock::{Duration, Instant};
use crate::net::SocketAddr;
use crate::operation_lock::{ControllerId, ControllerKind, ControllerRef, OperationLockError};
use crate::protocol::{
    AccessToken, ErrorCode, LeaseOwner, SafeMessage, ServerControlMessage, ServerMessageView,
    SessionName, TerminalSize,
};
use crate::security::{
    AllowedHost, AllowedOrigin, BasePath, BindView, ExposurePolicy, LoopbackBind, SecurityError,
};
use crate::session_gateway::{GatewayView, SessionGateway, SessionGatewayError};

verus! {

/// Longest text that a semantic operation writes, in bytes.
pub const SEMANTIC_TEXT_MAX_BYTES: usize = 4096;

/// Longest key name, in bytes.
pub const SEMANTIC_KEY_MAX_BYTES: usize = 32;

/// Largest scroll amount.
pub const SEMANTIC_SCROLL_MAX_AMOUNT: u16 = 100;

/// Longest text to wait for, in bytes.
pub const SEMANTIC_WAIT_TEXT_MAX_BYTES: usize = 4096;

/// How long to wait for a text by default, in milliseconds.
pub const SEMANTIC_WAIT_TIMEOUT_DEFAULT_MS: u64 = 5_000;

/// How long to wait for a text at most, in milliseconds.
pub const SEMANTIC_WAIT_TIMEOUT_MAX_MS: u64 = 60_000;

/// Presentation theme sent to the frontend through the HTML document.
#[derive(Debug, Clone, Copy, PartialEq, Eq, Structural)]
pub enum PresentationTheme {
    /// High-contrast dark presentation theme.
    HighContrast,
    /// Light presentation theme.
    Light,
}

impl PresentationTheme {
    /// The stable browser value.
    pub open spec fn text(self) -> Seq<char> {
        match self {
            PresentationTheme::HighContrast => "high-contrast"@,
            PresentationTheme::Light => "light"@,
        }
    }

    /// Returns the stable browser value.
    #[must_use]
    pub fn as_str(self) -> (r: &'static str)
        ensures
            r@ == self.text(),
    {
        match self {
            PresentationTheme::HighContrast => "high-contrast",
            PresentationTheme::Light => "light",
        }
    }
}

/// Browser presentation settings.
#[derive(Debug, Clone, Copy, PartialEq, Eq, Structural)]
pub struct PresentationSettings {
    /// Terminal font size in CSS pixels.
    pub font_size: u16,
    /// Terminal color theme.
    pub theme: PresentationTheme,
}

impl Default for PresentationSettings {
    fn default() -> (r: Self)
        ensures
            r == (PresentationSettings { font_size: 24, theme: PresentationTheme::HighContrast }),
    {
        PresentationSettings { font_size: 24, theme: PresentationTheme::HighContrast }
    }
}

/// The launch URL of a local server.
pub open spec fn local_url(
    bind: BindView,
    base_path: Option<Seq<char>>,
    token: Seq<u8>,
    presentation: PresentationSettings,
) -> Seq<char> {
    "http://"@ + crate::security::bind_authority(bind) + (match base_path {
        Some(path) => path,
        None => "/"@,
    }) + "?token="@ + crate::protocol::hex_text(token) + "&fontSize="@ + crate::text::decimal_text(
        presentation.font_size as nat,
    ) + "&theme="@ + presentation.theme.text()
}

/// Returns the launch URL of a local server.
pub fn local_launch_url(
    bind: LoopbackBind,
    base_path: Option<&BasePath>,
    token: &AccessToken,
    presentation: PresentationSettings,
) -> (r: String)
    ensures
        r@ == local_url(
            bind@,
            match base_path {
                Some(path) => Some(path@),
                None => None,
            },
            token@,
            presentation,
        ),
{
    let mut out = String::from_str("http://");
    out.append(bind.authority().as_str());
    match base_path {
        Some(path) => out.append(path.as_str()),
        None => out.append("/"),
    }
    out.append("?token=");
    out.append(token.to_url_token().as_str());
    out.append("&fontSize=");
    out.append(crate::text::decimal(presentation.font_size as u64).as_str());
    out.append("&theme=");
    out.append(presentation.theme.as_str());
    out
}

/// The route `tail` under the base path.
pub open spec fn route_under(base_path: Option<Seq<char>>, tail: Seq<char>) -> Seq<char> {
    match base_path {
        Some(path) => path.drop_last() + tail,
        None => tail,
    }
}

/// Returns the route `tail` under the base path.
pub fn route_path(base_path: Option<&BasePath>, tail: &str) -> (r: String)
    ensures
        r@ == route_under(
            match base_path {
                Some(path) => Some(path@),
                None => None,
            },
            tail@,
        ),
{
    match base_path {
        Some(path) => path.nest_prefix().concat(tail),
        None => tail.to_owned(),
    }
}

/// What a request says about itself.
#[derive(Debug, Clone, PartialEq, Eq)]
pub struct RequestHead {
    /// Peer address.
    pub peer: SocketAddr,
    /// Host header, where it is there and is text.
    pub host: Option<String>,
    /// Origin header, where it is there.
    pub origin: OriginHeader,
    /// Token of the query.
    pub token: String,
}

/// Origin header of a request.
#[derive(Debug, Clone, PartialEq, Eq)]
pub enum OriginHeader {
    /// There is none.
    Absent,
    /// It is no text.
    Unreadable,
    /// Its text.
    Text(String),
}

/// Tells whether the Host header is allowed.
pub open spec fn host_ok(host: Option<String>, policy: ExposurePolicy) -> bool {
    host matches Some(host) && crate::security::allowed_host(host@, policy)
}

/// Tells whether the Origin header is allowed. A request that must have one is
/// refused without it.
pub open spec fn origin_ok(origin: OriginHeader, policy: ExposurePolicy, required: bool) -> bool {
    match origin {
        OriginHeader::Absent => !required,
        OriginHeader::Unreadable => false,
        OriginHeader::Text(origin) => crate::security::allowed_origin_text(origin@, policy),
    }
}

/// Tells whether the token of the query is the token of the server.
pub open spec fn token_ok(supplied: Seq<char>, expected: Seq<u8>) -> bool {
    crate::protocol::token_bytes(supplied) == Some(expected)
}

/// The first reason to refuse a request: its peer, its host, its token, its
/// origin.
pub open spec fn request_refusal(
    head: RequestHead,
    policy: ExposurePolicy,
    token: Seq<u8>,
    require_origin: bool,
) -> Option<SecurityError> {
    if !crate::security::allowed_peer(head.peer, policy) {
        Some(SecurityError::InvalidPeer)
    } else if !host_ok(head.host, policy) {
        Some(SecurityError::InvalidHost)
    } else if !token_ok(head.token@, token) {
        Some(SecurityError::InvalidToken)
    } else if !origin_ok(head.origin, policy, require_origin) {
        Some(SecurityError::InvalidOrigin)
    } else {
        None
    }
}

fn validate_host(host: &Option<String>, policy: &ExposurePolicy) -> (r: Result<(), SecurityError>)
    ensures
        match r {
            Ok(_) => host_ok(*host, *policy),
            Err(error) => !host_ok(*host, *policy) && error == SecurityError::InvalidHost,
        },
{
    match host {
        Some(host) => match AllowedHost::validate_for_policy(host.as_str(), policy) {
            Ok(_) => Ok(()),
            Err(error) => Err(error),
        },
        None => Err(SecurityError::InvalidHost),
    }
}

fn validate_token(expected: &AccessToken, supplied: &str) -> (r: Result<(), SecurityError>)
    ensures
        match r {
            Ok(_) => token_ok(supplied@, expected@),
            Err(error) => !token_ok(supplied@, expected@) && error == SecurityError::InvalidToken,
        },
{
    match AccessToken::parse(supplied) {
        Ok(supplied) => crate::security::validate_access_token(expected, &supplied),
        Err(_) => Err(SecurityError::InvalidToken),
    }
}

fn validate_origin(origin: &OriginHeader, policy: &ExposurePolicy, required: bool) -> (r: Result<
    (),
    SecurityError,
>)
    ensures
        match r {
            Ok(_) => origin_ok(*origin, *policy, required),
            Err(error) => !origin_ok(*origin, *policy, required) && error
                == SecurityError::InvalidOrigin,
        },
{
    match origin {
        OriginHeader::Absent => if required {
            Err(SecurityError::InvalidOrigin)
        } else {
            Ok(())
        },
        OriginHeader::Unreadable => Err(SecurityError::InvalidOrigin),
        OriginHeader::Text(origin) => match AllowedOrigin::validate_for_policy(
            origin.as_str(),
            policy,
        ) {
            Ok(_) => Ok(()),
            Err(error) => Err(error),
        },
    }
}

/// Validates a request against the exposure policy and the server token.
pub fn validate_http_request(
    head: &RequestHead,
    policy: &ExposurePolicy,
    token: &AccessToken,
    require_origin: bool,
) -> (r: Result<(), SecurityError>)
    ensures
        match r {
            Ok(_) => request_refusal(*head, *policy, token@, require_origin) is None,
            Err(error) => request_refusal(*head, *policy, token@, require_origin) == Some(error),
        },
{
    match crate::security::validate_peer_for_policy(head.peer, policy) {
        Ok(_) => {},
        Err(error) => return Err(error),
    }
    match validate_host(&head.host, policy) {
        Ok(_) => {},
        Err(error) => return Err(error),
    }
    match validate_token(token, head.token.as_str()) {
        Ok(_) => {},
        Err(error) => return Err(error),
    }
    validate_origin(&head.origin, policy, require_origin)
}

/// Validates a request for a static file, which needs no token.
pub fn validate_asset_request(
    peer: SocketAddr,
    host: &Option<String>,
    policy: &ExposurePolicy,
) -> (r: Result<(), SecurityError>)
    ensures
        match r {
            Ok(_) => crate::security::allowed_peer(peer, *policy) && host_ok(*host, *policy),
            Err(error) => if !crate::security::allowed_peer(peer, *policy) {
                error == SecurityError::InvalidPeer
            } else {
                !host_ok(*host, *policy) && error == SecurityError::InvalidHost
            },
        },
{
    match crate::security::validate_peer_for_policy(peer, policy) {
        Ok(_) => {},
        Err(error) => return Err(error),
    }
    validate_host(host, policy)
}

/// Semantic API failure.
#[derive(Debug, Clone, Copy, PartialEq, Eq, Structural)]
pub enum ApiError {
    /// The request is malformed.
    BadRequest,
    /// Another controller owns the lease.
    Conflict,
    /// The controller does not own the lease.
    Forbidden,
    /// The session is not served.
    NotFound,
    /// The backend failed.
    Runtime,
    /// The request failed a security check.
    Security(SecurityError),
    /// The server has no backend session.
    Unsupported,
}

impl ApiError {
    /// The failure that a gateway error is.
    pub open spec fn of_gateway(error: SessionGatewayError) -> ApiError {
        match error {
            SessionGatewayError::Lock(OperationLockError::LeaseConflict {
                ..
            }) => ApiError::Conflict,
            SessionGatewayError::Lock(OperationLockError::NotLeaseOwner {
                ..
            }) => ApiError::Forbidden,
            SessionGatewayError::Lock(_) => ApiError::BadRequest,
            SessionGatewayError::Registry(_) => ApiError::NotFound,
            SessionGatewayError::Backend(_) => ApiError::Runtime,
        }
    }

    /// Returns the failure that a gateway error is.
    pub fn from_gateway(error: SessionGatewayError) -> (r: Self)
        ensures
            r == ApiError::of_gateway(error),
    {
        match error {
            SessionGatewayError::Lock(OperationLockError::LeaseConflict {
                ..
            }) => ApiError::Conflict,
            SessionGatewayError::Lock(OperationLockError::NotLeaseOwner {
                ..
            }) => ApiError::Forbidden,
            SessionGatewayError::Lock(_) => ApiError::BadRequest,
            SessionGatewayError::Registry(_) => ApiError::NotFound,
            SessionGatewayError::Backend(_) => ApiError::Runtime,
        }
    }

    /// HTTP status of the response.
    pub open spec fn status_code(self) -> u16 {
        match self {
            ApiError::BadRequest => 400,
            ApiError::Conflict => 409,
            ApiError::Forbidden => 403,
            ApiError::NotFound => 404,
            ApiError::Runtime => 500,
            ApiError::Security(_) => 403,
            ApiError::Unsupported => 409,
        }
    }

    /// Body of the response. A failed security check has none.
    pub open spec fn body_view(self) -> Option<ServerMessageView> {
        match self {
            ApiError::BadRequest => Some(
                ServerMessageView::Error {
                    code: ErrorCode::Protocol,
                    message: "invalid semantic operation request"@,
                },
            ),
            ApiError::Conflict => Some(
                ServerMessageView::Error {
                    code: ErrorCode::Forbidden,
                    message: "operation lease is owned by another controller"@,
                },
            ),
            ApiError::Forbidden => Some(
                ServerMessageView::Error {
                    code: ErrorCode::Forbidden,
                    message: "controller does not own input lease"@,
                },
            ),
            ApiError::NotFound => Some(
                ServerMessageView::Error {
                    code: ErrorCode::Runtime,
                    message: "session was not found"@,
                },
            ),
            ApiError::Runtime => Some(
                ServerMessageView::Error {
                    code: ErrorCode::Runtime,
                    message: "backend operation failed"@,
                },
            ),
            ApiError::Security(_) => None,
            ApiError::Unsupported => Some(
                ServerMessageView::Error {
                    code: ErrorCode::Runtime,
                    message: "semantic api requires a backend session"@,
                },
            ),
        }
    }

    /// Returns the HTTP status and the body of the response.
    pub fn into_response(self) -> (r: (u16, Option<ServerControlMessage>))
        ensures
            r.0 == self.status_code(),
            match r.1 {
                Some(message) => self.body_view() == Some(message@),
                None => self.body_view() is None,
            },
    {
        let (status, code, message): (u16, ErrorCode, SafeMessage) = match self {
            ApiError::Security(_) => return (403, None),
            ApiError::BadRequest => (
                400,
                ErrorCode::Protocol,
                SafeMessage::from_static("invalid semantic operation request"),
            ),
            ApiError::Conflict => (
                409,
                ErrorCode::Forbidden,
                SafeMessage::from_static("operation lease is owned by another controller"),
            ),
            ApiError::Forbidden => (
                403,
                ErrorCode::Forbidden,
                SafeMessage::from_static("controller does not own input lease"),
            ),
            ApiError::NotFound => (
                404,
                ErrorCode::Runtime,
                SafeMessage::from_static("session was not found"),
            ),
            ApiError::Runtime => (
                500,
                ErrorCode::Runtime,
                SafeMessage::from_static("backend operation failed"),
            ),
            ApiError::Unsupported => (
                409,
                ErrorCode::Runtime,
                SafeMessage::from_static("semantic api requires a backend session"),
            ),
        };
        (status, Some(ServerControlMessage::Error { code, message }))
    }
}

/// Validates a semantic API request.
pub fn validate_api_request(
    head: &RequestHead,
    policy: &ExposurePolicy,
    token: &AccessToken,
) -> (r: Result<(), ApiError>)
    ensures
        match r {
            Ok(_) => request_refusal(*head, *policy, token@, false) is None,
            Err(error) => error matches ApiError::Security(reason) && request_refusal(
                *head,
                *policy,
                token@,
                false,
            ) == Some(reason),
        },
{
    match validate_http_request(head, policy, token, false) {
        Ok(_) => Ok(()),
        Err(error) => Err(ApiError::Security(error)),
    }
}

/// Checks that the requested session is the one that is served.
pub fn served_session(served: Option<&SessionName>, requested: &SessionName) -> (r: Result<
    (),
    ApiError,
>)
    ensures
        match (served, r) {
            (None, r) => r == Err::<(), ApiError>(ApiError::Unsupported),
            (Some(session), Ok(_)) => session@ == requested@,
            (Some(session), Err(error)) => session@ != requested@ && error == ApiError::NotFound,
        },
{
    match served {
        Some(session) => if *session == *requested {
            Ok(())
        } else {
            Err(ApiError::NotFound)
        },
        None => Err(ApiError::Unsupported),
    }
}

/// The controller that a semantic API client is.
pub fn agent_controller(id: u64) -> (r: Result<ControllerRef, ApiError>)
    ensures
        match r {
            Ok(controller) => id != 0 && controller@.0 == ControllerKind::Agent && controller@.1@
                == id,
            Err(error) => id == 0 && error == ApiError::BadRequest,
        },
{
    match ControllerId::new(id) {
        Ok(id) => Ok(ControllerRef::new(ControllerKind::Agent, id)),
        Err(_) => Err(ApiError::BadRequest),
    }
}

/// Tells whether `text` may be written: short enough and without NUL.
pub open spec fn writable_text(text: Seq<char>) -> bool {
    crate::text::byte_len(text) <= SEMANTIC_TEXT_MAX_BYTES && !text.contains('\0')
}

/// Tells whether `command` may be run: writable text on one line.
pub open spec fn runnable_command(command: Seq<char>) -> bool {
    writable_text(command) && !command.contains('\r') && !command.contains('\n')
}

/// Tells whether `text` may be waited for.
pub open spec fn awaitable_text(text: Seq<char>) -> bool {
    &&& text.len() > 0
    &&& crate::text::byte_len(text) <= SEMANTIC_WAIT_TEXT_MAX_BYTES
    &&& !text.contains('\0')
}

/// Validates text to write.
pub fn bounded_semantic_text(text: &str) -> (r: Result<(), ApiError>)
    ensures
        r == (if writable_text(text@) {
            Ok(())
        } else {
            Err(ApiError::BadRequest)
        }),
{
    if text.as_bytes().len() > SEMANTIC_TEXT_MAX_BYTES || crate::text::contains_char(text, '\0') {
        return Err(ApiError::BadRequest);
    }
    Ok(())
}

/// Validates a command to run.
pub fn semantic_command_text(command: &str) -> (r: Result<(), ApiError>)
    ensures
        r == (if runnable_command(command@) {
            Ok(())
        } else {
            Err(ApiError::BadRequest)
        }),
{
    if crate::text::contains_char(command, '\r') || crate::text::contains_char(command, '\n') {
        return Err(ApiError::BadRequest);
    }
    bounded_semantic_text(command)
}

/// Validates a text to wait for.
pub fn bounded_wait_text(text: &str) -> (r: Result<(), ApiError>)
    ensures
        r == (if awaitable_text(text@) {
            Ok(())
        } else {
            Err(ApiError::BadRequest)
        }),
{
    if text.is_empty() || text.as_bytes().len() > SEMANTIC_WAIT_TEXT_MAX_BYTES
        || crate::text::contains_char(text, '\0') {
        return Err(ApiError::BadRequest);
    }
    Ok(())
}

/// How long to wait, in milliseconds, where the time is acceptable.
pub open spec fn wait_millis(value: Option<u64>) -> Option<u64> {
    let millis = match value {
        Some(millis) => millis,
        None => SEMANTIC_WAIT_TIMEOUT_DEFAULT_MS,
    };
    if 1 <= millis <= SEMANTIC_WAIT_TIMEOUT_MAX_MS {
        Some(millis)
    } else {
        None
    }
}

/// How long to wait for a text.
pub fn semantic_wait_timeout(value: Option<u64>) -> (r: Result<Duration, ApiError>)
    ensures
        match r {
            Ok(timeout) => wait_millis(value) matches Some(millis) && timeout@ == millis
                * 1_000_000,
            Err(error) => wait_millis(value) is None && error == ApiError::BadRequest,
        },
{
    let millis: u64 = match value {
        Some(millis) => millis,
        None => SEMANTIC_WAIT_TIMEOUT_DEFAULT_MS,
    };
    if millis == 0 || millis > SEMANTIC_WAIT_TIMEOUT_MAX_MS {
        return Err(ApiError::BadRequest);
    }
    Ok(Duration::from_millis(millis))
}

/// The backend token for a named key.
pub open spec fn named_key(key: Seq<char>) -> Option<Seq<char>> {
    if key == "Enter"@ {
        Some("Enter"@)
    } else if key == "Tab"@ {
        Some("Tab"@)
    } else if key == "Escape"@ {
        Some("Escape"@)
    } else if key == "Backspace"@ {
        Some("BSpace"@)
    } else if key == "CtrlC"@ {
        Some("C-c"@)
    } else if key == "CtrlD"@ {
        Some("C-d"@)
    } else if key == "ArrowUp"@ {
        Some("Up"@)
    } else if key == "ArrowDown"@ {
        Some("Down"@)
    } else if key == "ArrowRight"@ {
        Some("Right"@)
    } else if key == "ArrowLeft"@ {
        Some("Left"@)
    } else {
        None
    }
}

/// The backend token for a key: that of a named key, or the key itself where it
/// is one character that is no control character.
pub open spec fn key_token(key: Seq<char>) -> Option<Seq<char>> {
    match named_key(key) {
        Some(token) => Some(token),
        None => if key.len() == 1 && !crate::text::is_control_char(key[0]) {
            Some(key)
        } else {
            None
        },
    }
}

/// Returns the backend token for a key.
pub fn semantic_key_token(key: &str) -> (r: Result<String, ApiError>)
    ensures
        match r {
            Ok(token) => key_token(key@) == Some(token@),
            Err(error) => key_token(key@) is None && error == ApiError::BadRequest,
        },
{
    proof {
        lemma_named_keys(key@);
    }
    if key.is_empty() || key.as_bytes().len() > SEMANTIC_KEY_MAX_BYTES {
        proof {
            crate::text::lemma_byte_len(key@);
        }
        return Err(ApiError::BadRequest);
    }
    match token_of_named_key(key) {
        Some(token) => Ok(token.to_owned()),
        None => {
            let chars = crate::text::chars_of(key);
            if chars.len() != 1 || crate::text::is_control(chars[0]) {
                return Err(ApiError::BadRequest);
            }
            Ok(key.to_owned())
        },
    }
}

/// Returns the backend token for a named key.
pub fn token_of_named_key(key: &str) -> (r: Option<&'static str>)
    ensures
        match r {
            Some(token) => named_key(key@) == Some(token@),
            None => named_key(key@) is None,
        },
{
    if crate::text::same_text(key, "Enter") {
        Some("Enter")
    } else if crate::text::same_text(key, "Tab") {
        Some("Tab")
    } else if crate::text::same_text(key, "Escape") {
        Some("Escape")
    } else if crate::text::same_text(key, "Backspace") {
        Some("BSpace")
    } else if crate::text::same_text(key, "CtrlC") {
        Some("C-c")
    } else if crate::text::same_text(key, "CtrlD") {
        Some("C-d")
    } else if crate::text::same_text(key, "ArrowUp") {
        Some("Up")
    } else if crate::text::same_text(key, "ArrowDown") {
        Some("Down")
    } else if crate::text::same_text(key, "ArrowRight") {
        Some("Right")
    } else if crate::text::same_text(key, "ArrowLeft") {
        Some("Left")
    } else {
        None
    }
}

/// Named keys are neither empty nor too long.
pub proof fn lemma_named_keys(key: Seq<char>)
    ensures
        named_key(key) is Some ==> 1 <= key.len() && crate::text::byte_len(key)
            <= SEMANTIC_KEY_MAX_BYTES,
        key.len() == 1 ==> crate::text::byte_len(key) <= SEMANTIC_KEY_MAX_BYTES,
{
    reveal_strlit("Enter");
    reveal_strlit("Tab");
    reveal_strlit("Escape");
    reveal_strlit("Backspace");
    reveal_strlit("CtrlC");
    reveal_strlit("CtrlD");
    reveal_strlit("ArrowUp");
    reveal_strlit("ArrowDown");
    reveal_strlit("ArrowRight");
    reveal_strlit("ArrowLeft");
    if named_key(key) is Some {
        vstd::utf8::is_ascii_chars_encode_utf8(key);
    }
    crate::text::lemma_byte_len(key);
}

/// Answer to a lease request.
#[derive(Debug, Clone, Copy, PartialEq, Eq, Structural)]
pub struct LeaseResponse {
    /// Who may write now.
    pub owner: LeaseOwner,
    /// Number of the lease.
    pub epoch: u64,
}

/// Why a write of `controller` to `session` is refused.
pub open spec fn write_refusal(gateway: GatewayView, session: Seq<char>) -> ApiError {
    if gateway.sessions.dom().contains(session) {
        ApiError::Forbidden
    } else {
        ApiError::NotFound
    }
}

/// Outcome of a semantic write: `call` is asked of the backend for the lease
/// owner alone.
pub open spec fn semantic_write(
    before: GatewayView,
    session: Seq<char>,
    controller: ControllerRef,
    now: nat,
    call: spec_fn(SessionRefView, Result<(), BackendError>) -> BackendCall,
    r: Result<(), ApiError>,
    after: GatewayView,
) -> bool {
    if before.may_write(session, controller, now) {
        let answer = after.calls.last().outcome();
        &&& after == before.called(call(before.sessions[session], answer))
        &&& r == (if answer is Ok {
            Ok(())
        } else {
            Err(ApiError::Runtime)
        })
    } else {
        &&& after == before.inspected(session, now)
        &&& r == Err::<(), ApiError>(write_refusal(before, session))
    }
}

/// Outcome of a request of a semantic API client for the write lease.
pub open spec fn lock_acquired(
    before: GatewayView,
    session: Seq<char>,
    controller: ControllerRef,
    now: nat,
    r: Result<LeaseResponse, ApiError>,
    after: GatewayView,
) -> bool {
    let granted = crate::operation_lock::next_epoch(before.epochs, session);
    let conflict = crate::operation_lock::leased(before.leases, session, now)
        && before.leases[session].owner != controller;
    if !before.sessions.dom().contains(session) {
        r == Err::<LeaseResponse, ApiError>(ApiError::NotFound) && after == before
    } else if before.ttl == 0 || now + before.ttl > crate::clock::INSTANT_MAX_NANOS {
        r == Err::<LeaseResponse, ApiError>(ApiError::BadRequest) && after == before
    } else if conflict {
        r == Err::<LeaseResponse, ApiError>(ApiError::Conflict) && after == before
    } else {
        &&& r == Ok::<LeaseResponse, ApiError>(
            LeaseResponse { owner: LeaseOwner::Agent, epoch: granted },
        )
        &&& after == (GatewayView {
            leases: before.leases.insert(
                session,
                crate::operation_lock::LeaseView {
                    owner: controller,
                    epoch: granted,
                    expires_at: now + before.ttl,
                },
            ),
            epochs: crate::operation_lock::advanced(before.epochs, session),
            ..before
        })
    }
}

/// Outcome of giving the write lease of a semantic API client back.
pub open spec fn lock_released(
    before: GatewayView,
    session: Seq<char>,
    controller: ControllerRef,
    now: nat,
    r: Result<LeaseResponse, ApiError>,
    after: GatewayView,
) -> bool {
    if before.may_write(session, controller, now) {
        &&& r == Ok::<LeaseResponse, ApiError>(
            LeaseResponse { owner: LeaseOwner::Terminal, epoch: before.leases[session].epoch },
        )
        &&& after == (GatewayView { leases: before.leases.remove(session), ..before })
    } else {
        &&& r == Err::<LeaseResponse, ApiError>(write_refusal(before, session))
        &&& after == before.inspected(session, now)
    }
}

/// Outcome of pressing a key.
pub open spec fn key_pressed(
    before: GatewayView,
    session: Seq<char>,
    controller: ControllerRef,
    now: nat,
    token: Seq<char>,
    r: Result<(), ApiError>,
    after: GatewayView,
) -> bool {
    semantic_write(
        before,
        session,
        controller,
        now,
        |target: SessionRefView, answer: Result<(), BackendError>|
            BackendCall::SendKey { target, key: token, answer },
        r,
        after,
    )
}

/// Outcome of writing literal text.
pub open spec fn text_written(
    before: GatewayView,
    session: Seq<char>,
    controller: ControllerRef,
    now: nat,
    text: Seq<char>,
    r: Result<(), ApiError>,
    after: GatewayView,
) -> bool {
    semantic_write(
        before,
        session,
        controller,
        now,
        |target: SessionRefView, answer: Result<(), BackendError>|
            BackendCall::SendText { target, text, answer },
        r,
        after,
    )
}

/// Outcome of running a command.
pub open spec fn command_run(
    before: GatewayView,
    session: Seq<char>,
    controller: ControllerRef,
    now: nat,
    command: Seq<char>,
    r: Result<(), ApiError>,
    after: GatewayView,
) -> bool {
    semantic_write(
        before,
        session,
        controller,
        now,
        |target: SessionRefView, answer: Result<(), BackendError>|
            BackendCall::RunCommand { target, command, answer },
        r,
        after,
    )
}

/// Outcome of scrolling.
pub open spec fn scrolled(
    before: GatewayView,
    session: Seq<char>,
    controller: ControllerRef,
    now: nat,
    direction: BackendScrollDirection,
    amount: u16,
    r: Result<(), ApiError>,
    after: GatewayView,
) -> bool {
    semantic_write(
        before,
        session,
        controller,
        now,
        |target: SessionRefView, answer: Result<(), BackendError>|
            BackendCall::Scroll { target, direction, amount, answer },
        r,
        after,
    )
}

/// Gives the write lease of a session to a semantic API client.
pub fn api_acquire_lock<B: BackendAdapter>(
    gateway: &mut SessionGateway<B>,
    session: &SessionName,
    controller: ControllerRef,
    now: Instant,
) -> (r: Result<LeaseResponse, ApiError>)
    ensures
        lock_acquired(old(gateway)@, session@, controller, now@, r, final(gateway)@),
{
    match gateway.acquire_controller(session, controller, now) {
        Ok(lease) => Ok(LeaseResponse { owner: LeaseOwner::Agent, epoch: lease.epoch() }),
        Err(error) => Err(ApiError::from_gateway(error)),
    }
}

/// Takes the write lease of a session back from a semantic API client.
pub fn api_release_lock<B: BackendAdapter>(
    gateway: &mut SessionGateway<B>,
    session: &SessionName,
    controller: ControllerRef,
    now: Instant,
) -> (r: Result<LeaseResponse, ApiError>)
    ensures
        lock_released(old(gateway)@, session@, controller, now@, r, final(gateway)@),
{
    match gateway.release_controller(session, controller, now) {
        Ok(lease) => Ok(LeaseResponse { owner: LeaseOwner::Terminal, epoch: lease.epoch() }),
        Err(error) => Err(ApiError::from_gateway(error)),
    }
}

/// Presses a key, given as its backend token.
pub fn send_semantic_key<B: BackendAdapter>(
    gateway: &mut SessionGateway<B>,
    session: &SessionName,
    controller: ControllerRef,
    token: &str,
    now: Instant,
) -> (r: Result<(), ApiError>)
    ensures
        key_pressed(
            old(gateway)@,
            session@,
            controller,
            now@,
            token@,
            r,
            final(gateway)@,
        ),
{
    match gateway.send_key(session, controller, token, now) {
        Ok(_) => Ok(()),
        Err(error) => Err(ApiError::from_gateway(error)),
    }
}

/// Writes literal text.
pub fn send_semantic_text<B: BackendAdapter>(
    gateway: &mut SessionGateway<B>,
    session: &SessionName,
    controller: ControllerRef,
    text: &str,
    now: Instant,
) -> (r: Result<(), ApiError>)
    ensures
        text_written(
            old(gateway)@,
            session@,
            controller,
            now@,
            text@,
            r,
            final(gateway)@,
        ),
{
    match gateway.send_text(session, controller, text, now) {
        Ok(_) => Ok(()),
        Err(error) => Err(ApiError::from_gateway(error)),
    }
}

/// Runs a command.
pub fn run_semantic_command<B: BackendAdapter>(
    gateway: &mut SessionGateway<B>,
    session: &SessionName,
    controller: ControllerRef,
    command: &str,
    now: Instant,
) -> (r: Result<(), ApiError>)
    ensures
        command_run(
            old(gateway)@,
            session@,
            controller,
            now@,
            command@,
            r,
            final(gateway)@,
        ),
{
    match gateway.run_command(session, controller, command, now) {
        Ok(_) => Ok(()),
        Err(error) => Err(ApiError::from_gateway(error)),
    }
}

/// Scrolls through the history of the screen.
pub fn scroll_semantic<B: BackendAdapter>(
    gateway: &mut SessionGateway<B>,
    session: &SessionName,
    controller: ControllerRef,
    direction: BackendScrollDirection,
    amount: u16,
    now: Instant,
) -> (r: Result<(), ApiError>)
    ensures
        scrolled(
            old(gateway)@,
            session@,
            controller,
            now@,
            direction,
            amount,
            r,
            final(gateway)@,
        ),
{
    match gateway.scroll(session, controller, direction, amount, now) {
        Ok(_) => Ok(()),
        Err(error) => Err(ApiError::from_gateway(error)),
    }
}

/// Validates a scroll amount.
pub fn semantic_scroll_amount(amount: u16) -> (r: Result<(), ApiError>)
    ensures
        r == (if 1 <= amount <= SEMANTIC_SCROLL_MAX_AMOUNT {
            Ok(())
        } else {
            Err(ApiError::BadRequest)
        }),
{
    if amount == 0 || amount > SEMANTIC_SCROLL_MAX_AMOUNT {
        return Err(ApiError::BadRequest);
    }
    Ok(())
}

/// Reads the screen of a session.
pub fn read_gateway_screen<B: BackendAdapter>(
    gateway: &mut SessionGateway<B>,
    session: &SessionName,
) -> (r: Result<BackendScreenSnapshot, ApiError>)
    ensures
        if old(gateway)@.sessions.dom().contains(session@) {
            let screen = match final(gateway)@.calls.last() {
                BackendCall::ReadScreen { screen, .. } => screen,
                _ => Err(BackendError::Unavailable),
            };
            &&& final(gateway)@ == old(gateway)@.called(
                BackendCall::ReadScreen { target: old(gateway)@.sessions[session@], screen },
            )
            &&& match screen {
                Ok(shown) => r matches Ok(snapshot) && snapshot@ == shown,
                Err(_) => r matches Err(error) && error == ApiError::Runtime,
            }
        } else {
            &&& final(gateway)@ == old(gateway)@
            &&& r matches Err(error) && error == ApiError::NotFound
        },
{
    match gateway.read_screen(session) {
        Ok(snapshot) => Ok(snapshot),
        Err(error) => Err(ApiError::from_gateway(error)),
    }
}

/// Screen contents of an answer.
#[derive(Debug, Clone, PartialEq, Eq)]
pub struct ScreenResponse {
    /// Screen size.
    pub size: TerminalSize,
    /// Cursor column.
    pub cursor_col: u16,
    /// Cursor row.
    pub cursor_row: u16,
    /// Screen lines.
    pub lines: Vec<String>,
}

/// The answer that shows a screen.
pub fn screen_response(snapshot: &BackendScreenSnapshot) -> (r: ScreenResponse)
    ensures
        r.size == snapshot@.size,
        r.cursor_col == snapshot@.cursor_col,
        r.cursor_row == snapshot@.cursor_row,
        crate::text::texts(r.lines@) == snapshot@.lines,
{
    ScreenResponse {
        size: snapshot.size(),
        cursor_col: snapshot.cursor_col(),
        cursor_row: snapshot.cursor_row(),
        lines: crate::text::copy_texts(snapshot.lines()),
    }
}

/// Tells whether `needle` stands on a line of the screen.
pub open spec fn on_screen(lines: Seq<Seq<char>>, needle: Seq<char>) -> bool {
    exists|i: int|
        0 <= i < lines.len() && crate::text::occurs_in(#[trigger] lines[i], needle)
}

/// Returns whether `needle` stands on a line of the screen.
pub fn screen_contains(snapshot: &BackendScreenSnapshot, needle: &str) -> (r: bool)
    ensures
        r == on_screen(snapshot@.lines, needle@),
{
    let lines = snapshot.lines();
    let ghost views = snapshot@.lines;
    let mut i: usize = 0;
    while i < lines.len()
        invariant
            i <= lines@.len(),
            views == snapshot@.lines,
            crate::text::texts(lines@) == views,
            forall|k: int|
                0 <= k < i ==> !crate::text::occurs_in(#[trigger] views[k], needle@),
        decreases lines@.len() - i,
    {
        proof {
            assert(views[i as int] == lines@[i as int]@);
        }
        if crate::text::contains(lines[i].as_str(), needle) {
            return true;
        }
        i += 1;
    }
    false
}

/// What to do after a look at the screen.
#[derive(Debug, Clone, Copy, PartialEq, Eq, Structural)]
pub enum WaitStep {
    /// The text is there.
    Matched,
    /// The time is over.
    TimedOut,
    /// Look again after a pause.
    Again,
}

/// When to stop waiting for a text.
pub fn wait_deadline(now: Instant, timeout: Duration) -> (r: Result<Instant, ApiError>)
    ensures
        match r {
            Ok(deadline) => now@ + timeout@ <= crate::clock::INSTANT_MAX_NANOS && deadline@ == now@ + timeout@,
            Err(error) => now@ + timeout@ > crate::clock::INSTANT_MAX_NANOS && error == ApiError::BadRequest,
        },
{
    match now.checked_add(timeout) {
        Some(deadline) => Ok(deadline),
        None => Err(ApiError::BadRequest),
    }
}

/// What to do after a look at the screen. The text counts even where the time is over.
pub open spec fn wait_step(
    lines: Seq<Seq<char>>,
    needle: Seq<char>,
    now: nat,
    deadline: nat,
) -> WaitStep {
    if on_screen(lines, needle) {
        WaitStep::Matched
    } else if deadline <= now {
        WaitStep::TimedOut
    } else {
        WaitStep::Again
    }
}

/// Decides after a look at the screen whether to wait on. The text counts even
/// where the time is over.
pub fn wait_for_screen_text(
    snapshot: &BackendScreenSnapshot,
    needle: &str,
    now: Instant,
    deadline: Instant,
) -> (r: WaitStep)
    ensures
        r == wait_step(snapshot@.lines, needle@, now@, deadline@),
{
    if screen_contains(snapshot, needle) {
        return WaitStep::Matched;
    }
    if deadline.at_or_before(now) {
        return WaitStep::TimedOut;
    }
    WaitStep::Again
}

/// What follows a command that was run: waiting for a text, reading the screen, or both.
pub struct CommandWatch {
    needle: Option<String>,
    capture: bool,
    deadline: Instant,
}

/// Contents of a [`CommandWatch`].
pub struct WatchView {
    /// Text that is waited for.
    pub needle: Option<Seq<char>>,
    /// Whether the screen is part of the answer.
    pub capture: bool,
    /// When waiting ends.
    pub deadline: nat,
}

impl View for CommandWatch {
    type V = WatchView;

    closed spec fn view(&self) -> WatchView {
        WatchView {
            needle: match self.needle {
                Some(text) => Some(text@),
                None => None,
            },
            capture: self.capture,
            deadline: self.deadline@,
        }
    }
}

/// What to do next after a command was run.
#[derive(Debug)]
pub enum WatchStep {
    /// Read the screen.
    Read,
    /// Read the screen after a pause.
    Pause,
    /// Answer with whether the text came, where one was waited for, and with the
    /// screen, where it was asked for.
    Finish {
        /// Whether the text came.
        matched: Option<bool>,
        /// The screen.
        screen: Option<BackendScreenSnapshot>,
    },
}

impl WatchView {
    /// What to do after a look at the screen.
    pub open spec fn after(self, screen: SnapshotView, now: nat, step: WatchStep) -> bool {
        match self.needle {
            Some(needle) => if on_screen(screen.lines, needle) {
                finished(step, Some(true), self.capture, screen)
            } else if self.deadline <= now {
                finished(step, Some(false), self.capture, screen)
            } else {
                step is Pause
            },
            None => finished(step, None, true, screen),
        }
    }
}

/// Tells whether a step answers with `matched`, and with `screen` where `capture` asks for it.
pub open spec fn finished(
    step: WatchStep,
    matched: Option<bool>,
    capture: bool,
    screen: SnapshotView,
) -> bool {
    match step {
        WatchStep::Finish { matched: answered, screen: shown } => {
            &&& answered == matched
            &&& match shown {
                Some(shown) => capture && shown@ == screen,
                None => !capture,
            }
        },
        _ => false,
    }
}

impl CommandWatch {
    /// Starts after a command was run at `now`. Fails where the end of the wait cannot be
    /// told.
    pub fn start(needle: Option<String>, capture: bool, now: Instant, timeout: Duration) -> (r:
        Result<(Self, WatchStep), ApiError>)
        ensures
            match r {
                Ok((watch, step)) => {
                    &&& watch@.needle == (match needle {
                        Some(text) => Some(text@),
                        None => None,
                    })
                    &&& watch@.capture == capture
                    &&& needle is Some ==> watch@.deadline == now@ + timeout@
                    &&& if needle is Some || capture {
                        step is Read
                    } else {
                        step == (WatchStep::Finish { matched: None, screen: None })
                    }
                },
                Err(error) => needle is Some && now@ + timeout@ > crate::clock::INSTANT_MAX_NANOS && error
                    == ApiError::BadRequest,
            },
    {
        let mut deadline = now;
        if needle.is_some() {
            deadline = match wait_deadline(now, timeout) {
                Ok(deadline) => deadline,
                Err(error) => return Err(error),
            };
        }
        let step = if needle.is_some() || capture {
            WatchStep::Read
        } else {
            WatchStep::Finish { matched: None, screen: None }
        };
        Ok((CommandWatch { needle, capture, deadline }, step))
    }

    /// Decides after a look at the screen.
    pub fn step(&self, screen: BackendScreenSnapshot, now: Instant) -> (r: WatchStep)
        ensures
            self@.after(screen@, now@, r),
    {
        match &self.needle {
            Some(needle) => {
                let matched = match wait_for_screen_text(
                    &screen,
                    needle.as_str(),
                    now,
                    self.deadline,
                ) {
                    WaitStep::Matched => true,
                    WaitStep::TimedOut => false,
                    WaitStep::Again => return WatchStep::Pause,
                };
                let shown = if self.capture {
                    Some(screen)
                } else {
                    None
                };
                WatchStep::Finish { matched: Some(matched), screen: shown }
            },
            None => WatchStep::Finish { matched: None, screen: Some(screen) },
        }
    }
}

/// A text that stands on the screen ends the wait at once, and is reported, however late
/// it is.
pub proof fn law_text_on_screen_is_reported(
    watch: WatchView,
    screen: SnapshotView,
    now: nat,
    step: WatchStep,
)
    requires
        watch.after(screen, now, step),
        watch.needle matches Some(needle) && on_screen(screen.lines, needle),
    ensures
        step matches WatchStep::Finish { matched: Some(true), .. },
{
}

/// A wait ends at its deadline.
pub proof fn law_wait_ends_at_the_deadline(
    watch: WatchView,
    screen: SnapshotView,
    now: nat,
    step: WatchStep,
)
    requires
        watch.after(screen, now, step),
        watch.deadline <= now,
    ensures
        step is Finish,
{
}

/// Command that a semantic API client asks to run.
#[derive(Debug, Clone, PartialEq, Eq)]
pub struct RunCommandRequest {
    /// Controller id.
    pub controller_id: u64,
    /// Command.
    pub command: String,
    /// Text to wait for.
    pub wait_for: Option<String>,
    /// How long to wait, in milliseconds.
    pub wait_timeout_ms: Option<u64>,
    /// Whether to answer with the screen.
    pub capture: bool,
}

/// Tells whether a run request is acceptable.
pub open spec fn acceptable_run(request: RunCommandRequest) -> bool {
    &&& runnable_command(request.command@)
    &&& request.wait_for matches Some(text) ==> awaitable_text(text@)
    &&& wait_millis(request.wait_timeout_ms) is Some
    &&& request.controller_id != 0
}

/// Validates a run request: the controller and how long to wait.
pub fn validate_run_command(request: &RunCommandRequest) -> (r: Result<
    (ControllerRef, Duration),
    ApiError,
>)
    ensures
        match r {
            Ok(accepted) => {
                &&& acceptable_run(*request)
                &&& accepted.0@.0 == ControllerKind::Agent
                &&& accepted.0@.1@ == request.controller_id
                &&& accepted.1@ == wait_millis(request.wait_timeout_ms)->0 * 1_000_000
            },
            Err(error) => !acceptable_run(*request) && error == ApiError::BadRequest,
        },
{
    match semantic_command_text(request.command.as_str()) {
        Ok(_) => {},
        Err(error) => return Err(error),
    }
    match &request.wait_for {
        Some(text) => match bounded_wait_text(text.as_str()) {
            Ok(_) => {},
            Err(error) => return Err(error),
        },
        None => {},
    }
    let timeout = match semantic_wait_timeout(request.wait_timeout_ms) {
        Ok(timeout) => timeout,
        Err(error) => return Err(error),
    };
    match agent_controller(request.controller_id) {
        Ok(controller) => Ok((controller, timeout)),
        Err(error) => Err(error),
    }
}

/// A local server serves this machine alone: an accepted request comes from it
/// and names it, with the access token of the server.
pub proof fn law_local_server_serves_this_machine(
    head: RequestHead,
    bind: LoopbackBind,
    token: Seq<u8>,
    require_origin: bool,
)
    requires
        request_refusal(head, ExposurePolicy::Local(bind), token, require_origin) is None,
    ensures
        head.peer.ip.loopback(),
        head.host matches Some(host) && crate::security::loopback_host(host@, bind@),
        crate::protocol::token_bytes(head.token@) == Some(token),
{
}

/// No request is served without the access token of the server, and no socket is
/// opened from a page of another origin.
pub proof fn law_socket_needs_token_and_origin(
    head: RequestHead,
    policy: ExposurePolicy,
    token: Seq<u8>,
)
    requires
        request_refusal(head, policy, token, true) is None,
    ensures
        crate::protocol::token_bytes(head.token@) == Some(token),
        head.origin matches OriginHeader::Text(origin) && crate::security::allowed_origin_text(
            origin@,
            policy,
        ),
{
}

/// A semantic write reaches the backend for the lease owner alone.
pub proof fn law_semantic_write_needs_the_lease(
    before: GatewayView,
    session: Seq<char>,
    controller: ControllerRef,
    now: nat,
    call: spec_fn(SessionRefView, Result<(), BackendError>) -> BackendCall,
    r: Result<(), ApiError>,
    after: GatewayView,
)
    requires
        semantic_write(before, session, controller, now, call, r, after),
        !before.may_write(session, controller, now),
    ensures
        after.calls == before.calls,
        before.sessions.dom().contains(session) ==> r == Err::<(), ApiError>(ApiError::Forbidden),
        !before.sessions.dom().contains(session) ==> r == Err::<(), ApiError>(ApiError::NotFound),
{
}

/// Each named key is pressed under the token of that key: an arrow under its direction, a
/// control chord under its letter, and no two keys under the same token. Any other key is
/// pressed as it is where it is one character that can be shown, and refused else.
pub proof fn law_keys_are_pressed_as_named(key: Seq<char>, other: Seq<char>)
    ensures
        key_token("Enter"@) == Some("Enter"@),
        key_token("Tab"@) == Some("Tab"@),
        key_token("Escape"@) == Some("Escape"@),
        key_token("Backspace"@) == Some("BSpace"@),
        key_token("CtrlC"@) == Some("C-c"@),
        key_token("CtrlD"@) == Some("C-d"@),
        key_token("ArrowUp"@) == Some("Up"@),
        key_token("ArrowDown"@) == Some("Down"@),
        key_token("ArrowRight"@) == Some("Right"@),
        key_token("ArrowLeft"@) == Some("Left"@),
        key.len() > 5 && key.take(5) == "Arrow"@ && key_token(key) is Some ==> key_token(key)
            == Some(key.skip(5)),
        key.len() == 5 && key.take(4) == "Ctrl"@ && key_token(key) is Some ==> {
            &&& key[4] == 'C' ==> key_token(key) == Some(seq!['C', '-', 'c'])
            &&& key[4] == 'D' ==> key_token(key) == Some(seq!['C', '-', 'd'])
            &&& key[4] == 'C' || key[4] == 'D'
        },
        key.len() == 1 ==> key_token(key) == (if crate::text::is_control_char(key[0]) {
            None
        } else {
            Some(key)
        }),
        key_token(key) is Some && key_token(key) == key_token(other) ==> key == other,
        key_token(key) is Some ==> 1 <= key.len() <= 10,
{
    reveal_strlit("Enter");
    reveal_strlit("Tab");
    reveal_strlit("Escape");
    reveal_strlit("Backspace");
    reveal_strlit("BSpace");
    reveal_strlit("CtrlC");
    reveal_strlit("CtrlD");
    reveal_strlit("C-c");
    reveal_strlit("C-d");
    reveal_strlit("ArrowUp");
    reveal_strlit("ArrowDown");
    reveal_strlit("ArrowRight");
    reveal_strlit("ArrowLeft");
    reveal_strlit("Up");
    reveal_strlit("Down");
    reveal_strlit("Right");
    reveal_strlit("Left");
    reveal_strlit("Arrow");
    reveal_strlit("Ctrl");
    lemma_key_starts(key);
    lemma_key_starts(other);
    lemma_key_starts("CtrlC"@);
    lemma_key_starts("CtrlD"@);
    lemma_key_starts("ArrowDown"@);
    lemma_key_starts("ArrowLeft"@);
    assert("Enter"@[0] == 'E' && "Right"@[0] == 'R');
    assert("Tab"@[0] == 'T' && "C-c"@[0] == 'C' && "C-d"@[0] == 'C');
    assert("C-c"@[2] == 'c' && "C-d"@[2] == 'd');
    assert("Escape"@[0] == 'E' && "BSpace"@[0] == 'B');
    assert("Down"@[0] == 'D' && "Left"@[0] == 'L');
    assert("ArrowUp"@.skip(5) =~= "Up"@);
    assert("ArrowDown"@.skip(5) =~= "Down"@);
    assert("ArrowRight"@.skip(5) =~= "Right"@);
    assert("ArrowLeft"@.skip(5) =~= "Left"@);
    assert("C-c"@ =~= seq!['C', '-', 'c']);
    assert("C-d"@ =~= seq!['C', '-', 'd']);
    if key.len() == 5 && key.take(4) == "Ctrl"@ {
        assert(key.take(4)[0] == key[0]);
    }
    if key.len() > 5 && key.take(5) == "Arrow"@ {
        assert(key.take(5)[0] == key[0]);
    }
}

proof fn lemma_key_starts(key: Seq<char>)
    ensures
        key == "Enter"@ ==> key.len() == 5 && key[0] == 'E' && key[1] == 'n',
        key == "Tab"@ ==> key.len() == 3 && key[0] == 'T',
        key == "Escape"@ ==> key.len() == 6 && key[0] == 'E' && key[1] == 's',
        key == "Backspace"@ ==> key.len() == 9 && key[0] == 'B',
        key == "CtrlC"@ ==> key.len() == 5 && key[0] == 'C' && key[4] == 'C',
        key == "CtrlD"@ ==> key.len() == 5 && key[0] == 'C' && key[4] == 'D',
        key == "ArrowUp"@ ==> key.len() == 7 && key[0] == 'A',
        key == "ArrowDown"@ ==> key.len() == 9 && key[0] == 'A',
        key == "ArrowRight"@ ==> key.len() == 10 && key[0] == 'A',
        key == "ArrowLeft"@ ==> key.len() == 9 && key[0] == 'A' && key[5] == 'L',
{
    reveal_strlit("Enter");
    reveal_strlit("Tab");
    reveal_strlit("Escape");
    reveal_strlit("Backspace");
    reveal_strlit("CtrlC");
    reveal_strlit("CtrlD");
    reveal_strlit("ArrowUp");
    reveal_strlit("ArrowDown");
    reveal_strlit("ArrowRight");
    reveal_strlit("ArrowLeft");
}

/// A semantic write by the lease owner asks the backend exactly once, for what was asked and
/// on the pane of the session: a key is pressed, a text is typed, a command is run, the
/// screen is scrolled. It succeeds where the backend did.
pub proof fn law_semantic_writes_do_what_they_say(
    before: GatewayView,
    session: Seq<char>,
    controller: ControllerRef,
    now: nat,
    text: Seq<char>,
    direction: BackendScrollDirection,
    amount: u16,
    r: Result<(), ApiError>,
    after: GatewayView,
)
    requires
        before.may_write(session, controller, now),
    ensures
        key_pressed(before, session, controller, now, text, r, after) ==> {
            &&& after.calls.len() == before.calls.len() + 1
            &&& after.calls.last() matches BackendCall::SendKey { target, key, answer }
            &&& target == before.sessions[session] && key == text && r is Ok == answer is Ok
        },
        text_written(before, session, controller, now, text, r, after) ==> {
            &&& after.calls.len() == before.calls.len() + 1
            &&& after.calls.last() matches BackendCall::SendText { target, text: typed, answer }
            &&& target == before.sessions[session] && typed == text && r is Ok == answer is Ok
        },
        command_run(before, session, controller, now, text, r, after) ==> {
            &&& after.calls.len() == before.calls.len() + 1
            &&& after.calls.last() matches BackendCall::RunCommand { target, command, answer }
            &&& target == before.sessions[session] && command == text && r is Ok == answer is Ok
        },
        scrolled(before, session, controller, now, direction, amount, r, after) ==> {
            &&& after.calls.len() == before.calls.len() + 1
            &&& after.calls.last() matches BackendCall::Scroll {
                target,
                direction: way,
                amount: lines,
                answer,
            }
            &&& target == before.sessions[session] && way == direction && lines == amount
            &&& r is Ok == answer is Ok
        },
        key_pressed(before, session, controller, now, text, r, after) || text_written(
            before,
            session,
            controller,
            now,
            text,
            r,
            after,
        ) || command_run(before, session, controller, now, text, r, after) || scrolled(
            before,
            session,
            controller,
            now,
            direction,
            amount,
            r,
            after,
        ) ==> after.leases == before.leases && after.sessions == before.sessions && (r is Err
            ==> r == Err::<(), ApiError>(ApiError::Runtime)),
{
}

/// A semantic API client that was given the lease may write, and is told the number of its
/// lease and that an agent has control. It is refused only where the session is unknown,
/// where another controller has the lease, or where no lease can be given.
pub proof fn law_acquired_lock_lets_an_agent_write(
    before: GatewayView,
    session: Seq<char>,
    controller: ControllerRef,
    now: nat,
    r: Result<LeaseResponse, ApiError>,
    after: GatewayView,
)
    requires
        lock_acquired(before, session, controller, now, r, after),
    ensures
        r matches Ok(lease) ==> {
            &&& after.may_write(session, controller, now)
            &&& lease.owner == LeaseOwner::Agent
            &&& lease.epoch == after.leases[session].epoch
            &&& after.leases[session].expires_at == now + before.ttl
            &&& after.calls == before.calls
        },
        r is Err ==> after == before,
        before.sessions.dom().contains(session) && before.ttl > 0 && now + before.ttl
            <= crate::clock::INSTANT_MAX_NANOS && !(before.leases.dom().contains(session) && now
            < before.leases[session].expires_at && before.leases[session].owner != controller)
            ==> r is Ok,
        !before.sessions.dom().contains(session) ==> r == Err::<LeaseResponse, ApiError>(
            ApiError::NotFound,
        ),
{
}

/// A semantic API client that gives its lease back may no longer write, is told that the
/// terminal has control, and leaves the lease free for anyone; it never gets or renews one
/// by it.
pub proof fn law_released_lock_frees_the_session(
    before: GatewayView,
    session: Seq<char>,
    controller: ControllerRef,
    now: nat,
    r: Result<LeaseResponse, ApiError>,
    after: GatewayView,
    next: ControllerRef,
    later: nat,
    r2: Result<LeaseResponse, ApiError>,
    end: GatewayView,
)
    requires
        lock_released(before, session, controller, now, r, after),
        lock_acquired(after, session, next, later, r2, end),
    ensures
        !after.may_write(session, controller, now),
        after.calls == before.calls,
        r is Ok == before.may_write(session, controller, now),
        r matches Ok(lease) ==> {
            &&& lease.owner == LeaseOwner::Terminal
            &&& lease.epoch == before.leases[session].epoch
            &&& !after.leases.dom().contains(session)
            &&& before.ttl > 0 && later + before.ttl <= crate::clock::INSTANT_MAX_NANOS ==> r2
                is Ok && end.may_write(session, next, later)
        },
{
}

/// Text is written where it is at most 4096 bytes without NUL; a command is such a text on
/// one line; a text to wait for is such a text that is not empty. One waits between one
/// millisecond and a minute, and five seconds where nothing is said.
pub proof fn law_semantic_limits(text: Seq<char>, millis: u64)
    ensures
        writable_text(text) <==> crate::text::byte_len(text) <= 4096 && !text.contains('\0'),
        runnable_command(text) <==> writable_text(text) && !text.contains('\r')
            && !text.contains('\n'),
        awaitable_text(text) <==> writable_text(text) && text.len() > 0,
        wait_millis(Some(millis)) == (if 1 <= millis <= 60_000 {
            Some(millis)
        } else {
            None
        }),
        wait_millis(None) == Some(5_000u64),
        SEMANTIC_SCROLL_MAX_AMOUNT == 100,
        SEMANTIC_KEY_MAX_BYTES == 32,
{
}

/// Who is refused is told why by the status: a request that is wrong 400, one by a
/// controller without the lease or without the right to be served 403, one for a session
/// that is not served 404, one against another controller or without a backend session 409,
/// and a failure of the backend 500. Only a failed security check says nothing more.
pub proof fn law_statuses_tell_why(error: SessionGatewayError, reason: SecurityError)
    ensures
        error is Backend ==> ApiError::of_gateway(error).status_code() == 500,
        error is Registry ==> ApiError::of_gateway(error).status_code() == 404,
        error matches SessionGatewayError::Lock(lock) ==> {
            &&& lock is LeaseConflict ==> ApiError::of_gateway(error).status_code() == 409
            &&& lock is NotLeaseOwner ==> ApiError::of_gateway(error).status_code() == 403
            &&& lock is InvalidLeaseTtl || lock is LeaseExpirationOverflow
                || lock is InvalidControllerId ==> ApiError::of_gateway(error).status_code() == 400
        },
        ApiError::BadRequest.status_code() == 400,
        ApiError::Forbidden.status_code() == 403,
        ApiError::Security(reason).status_code() == 403,
        ApiError::NotFound.status_code() == 404,
        ApiError::Conflict.status_code() == 409,
        ApiError::Unsupported.status_code() == 409,
        ApiError::Runtime.status_code() == 500,
        ApiError::Security(reason).body_view() is None,
        ApiError::of_gateway(error).body_view() matches Some(ServerMessageView::Error {
            code,
            message,
        }) && {
            &&& error is Backend ==> code == ErrorCode::Runtime && message
                == "backend operation failed"@
            &&& error is Registry ==> code == ErrorCode::Runtime && message
                == "session was not found"@
            &&& error matches SessionGatewayError::Lock(lock) ==> {
                &&& lock is LeaseConflict ==> code == ErrorCode::Forbidden && message
                    == "operation lease is owned by another controller"@
                &&& lock is NotLeaseOwner ==> code == ErrorCode::Forbidden && message
                    == "controller does not own input lease"@
                &&& lock is InvalidLeaseTtl || lock is LeaseExpirationOverflow
                    || lock is InvalidControllerId ==> code == ErrorCode::Protocol && message
                    == "invalid semantic operation request"@
            }
        },
{
}

/// A wait goes on exactly while the text is not on the screen and its time is not over. The
/// answer says whether the text is on the screen, and shows the screen exactly where that
/// was asked for, or where nothing was waited for.
pub proof fn law_wait_answers_what_it_saw(
    watch: WatchView,
    screen: SnapshotView,
    now: nat,
    step: WatchStep,
)
    requires
        watch.after(screen, now, step),
    ensures
        step !is Read,
        step is Pause <==> (watch.needle matches Some(needle) && !on_screen(screen.lines, needle)
            && now < watch.deadline),
        step matches WatchStep::Finish { matched, screen: shown } ==> {
            &&& matched == (match watch.needle {
                Some(needle) => Some(on_screen(screen.lines, needle)),
                None => None,
            })
            &&& shown is Some == (watch.capture || watch.needle is None)
            &&& shown matches Some(shown) ==> shown@ == screen
        },
{
}

/// A text is on the screen exactly where it stands on a line of it.
pub proof fn law_screen_is_searched_by_line(
    lines: Seq<Seq<char>>,
    needle: Seq<char>,
    i: int,
    at: int,
)
    ensures
        0 <= i < lines.len() && crate::text::stands_in(lines[i], needle, at) ==> on_screen(
            lines,
            needle,
        ),
        on_screen(lines, needle) ==> exists|k: int, from: int|
            0 <= k < lines.len() && #[trigger] crate::text::stands_in(lines[k], needle, from),
{
    if 0 <= i < lines.len() {
        crate::text::law_text_occurs_where_it_stands(lines[i], needle, at);
    }
    if on_screen(lines, needle) {
        let k = choose|k: int|
            0 <= k < lines.len() && crate::text::occurs_in(#[trigger] lines[k], needle);
        crate::text::law_text_occurs_where_it_stands(lines[k], needle, 0);
    }
}

/// A request from an allowed peer, with an allowed host and the token of the server, is
/// served, without an origin where none is needed and with an allowed one in any case. One
/// that is refused is refused for the first of peer, host, token and origin that is wrong.
pub proof fn law_good_requests_are_served(
    head: RequestHead,
    policy: ExposurePolicy,
    token: Seq<u8>,
    require_origin: bool,
)
    requires
        token.len() == 32,
    ensures
        ({
            let peer = crate::security::allowed_peer(head.peer, policy);
            let host = head.host is Some && crate::security::allowed_host(head.host->0@, policy);
            let known = crate::protocol::token_bytes(head.token@) == Some(token);
            let origin = match head.origin {
                OriginHeader::Absent => !require_origin,
                OriginHeader::Unreadable => false,
                OriginHeader::Text(text) => crate::security::allowed_origin_text(text@, policy),
            };
            let refusal = request_refusal(head, policy, token, require_origin);
            &&& peer && host && known && origin <==> refusal is None
            &&& !peer <==> refusal == Some(SecurityError::InvalidPeer)
            &&& peer && !host <==> refusal == Some(SecurityError::InvalidHost)
            &&& peer && host && !known <==> refusal == Some(SecurityError::InvalidToken)
            &&& peer && host && known && !origin <==> refusal == Some(SecurityError::InvalidOrigin)
        }),
        token_ok(crate::protocol::hex_text(token), token),
{
    crate::protocol::law_token_round_trip(token);
}

/// The launch URL of a local server names it by its address, leads to the base path or the
/// root, and carries the token, the font size and the theme. What it names is accepted.
pub proof fn law_launch_url_leads_to_the_server(
    bind: BindView,
    base_path: Option<Seq<char>>,
    token: Seq<u8>,
    presentation: PresentationSettings,
)
    requires
        token.len() == 32,
    ensures
        exists|value: Seq<char>, size: Seq<char>|
            #![trigger crate::protocol::token_bytes(value), crate::text::number(size, 10, 65535)]
            {
                &&& crate::protocol::token_bytes(value) == Some(token)
                &&& crate::text::number(size, 10, 65535) == Some(presentation.font_size as nat)
                &&& local_url(bind, base_path, token, presentation) == "http://"@
                    + crate::security::bind_authority(bind) + (if base_path is Some {
                    base_path->0
                } else {
                    "/"@
                }) + "?token="@ + value + "&fontSize="@ + size + "&theme="@ + (
                if presentation.theme is Light {
                    "light"@
                } else {
                    "high-contrast"@
                })
            },
        crate::security::loopback_host(crate::security::bind_authority(bind), bind),
{
    crate::protocol::law_token_round_trip(token);
    crate::text::law_decimal_round_trip(presentation.font_size as nat, 65535);
    crate::security::law_own_address_is_accepted(bind);
    let value = crate::protocol::hex_text(token);
    let size = crate::text::decimal_text(presentation.font_size as nat);
    assert(crate::protocol::token_bytes(value) == Some(token));
    assert(crate::text::number(size, 10, 65535) == Some(presentation.font_size as nat));
}

/// Routes stand under the base path, with one slash between, or at the root.
pub proof fn law_routes_stand_under_the_base_path(path: Seq<char>, tail: Seq<char>)
    ensures
        route_under(None, tail) == tail,
        route_under(Some(path.push('/')), tail) == path + tail,
{
    assert(path.push('/').drop_last() =~= path);
}

/// A lock that another controller holds is refused as a conflict, and one that cannot be
/// given for its time as a wrong request.
pub proof fn law_contested_lock_is_refused(
    before: GatewayView,
    session: Seq<char>,
    controller: ControllerRef,
    now: nat,
    r: Result<LeaseResponse, ApiError>,
    after: GatewayView,
)
    requires
        lock_acquired(before, session, controller, now, r, after),
        before.sessions.dom().contains(session),
    ensures
        before.ttl == 0 || now + before.ttl > crate::clock::INSTANT_MAX_NANOS ==> r == Err::<
            LeaseResponse,
            ApiError,
        >(ApiError::BadRequest),
        before.ttl > 0 && now + before.ttl <= crate::clock::INSTANT_MAX_NANOS ==> (r == Err::<
            LeaseResponse,
            ApiError,
        >(ApiError::Conflict) <==> before.leases.dom().contains(session) && now
            < before.leases[session].expires_at && before.leases[session].owner != controller),
{
}

/// A run request is accepted where its command can be run, its text can be waited for, its
/// time is 1 to 60000 milliseconds or left out, and its controller is not zero.
pub proof fn law_run_requests_are_judged(request: RunCommandRequest)
    ensures
        acceptable_run(request) <==> {
            &&& vstd::utf8::encode_utf8(request.command@).len() <= 4096
            &&& !request.command@.contains('\0')
            &&& !request.command@.contains('\r')
            &&& !request.command@.contains('\n')
            &&& request.wait_for matches Some(text) ==> 0 < vstd::utf8::encode_utf8(
                text@,
            ).len() <= 4096 && !text@.contains('\0')
            &&& request.wait_timeout_ms matches Some(millis) ==> 1 <= millis <= 60_000
            &&& request.controller_id >= 1
        },
{
    if let Some(text) = request.wait_for {
        crate::text::lemma_byte_len(text@);
    }
}

/// A look at the screen ends a wait where the text is there, however late, and where the time
/// is over; else one looks again.
pub proof fn law_look_decides_the_wait(
    lines: Seq<Seq<char>>,
    needle: Seq<char>,
    now: nat,
    deadline: nat,
)
    ensures
        wait_step(lines, needle, now, deadline) is Matched <==> on_screen(lines, needle),
        wait_step(lines, needle, now, deadline) is Again <==> !on_screen(lines, needle) && now
            < deadline,
{
}

/// A server without a backend session says so, and a theme has its name.
pub proof fn law_unsupported_says_so(theme: PresentationTheme)
    ensures
        ApiError::Unsupported.body_view() == Some(
            (ServerMessageView::Error {
                code: ErrorCode::Runtime,
                message: "semantic api requires a backend session"@,
            }),
        ),
        theme is Light ==> theme.text() == "light"@,
        theme is HighContrast ==> theme.text() == "high-contrast"@,
{
}

} // verus!
