//! Calls of the semantic API from the command line.

use vstd::prelude::*;

use crate::cli::{CliError, CliScrollDirection};
use crate::protocol::{AccessToken, SessionName};
use crate::web_url::{UrlParts, UrlView};

verus! {

/// An API command, as it was given.
pub enum ApiCommand {
    /// Acquire the write lease.
    AcquireLock {
        /// Session name.
        session: String,
    },
    /// Release the write lease.
    ReleaseLock {
        /// Session name.
        session: String,
    },
    /// Send literal text.
    SendText {
        /// Session name.
        session: String,
        /// Text.
        text: String,
    },
    /// Send one key.
    SendKey {
        /// Session name.
        session: String,
        /// Key.
        key: String,
    },
    /// Run a command.
    RunCommand {
        /// Session name.
        session: String,
        /// Command line.
        command: String,
        /// Text to wait for.
        wait_for: Option<String>,
        /// How long to wait, in milliseconds.
        wait_timeout_ms: Option<u64>,
        /// Return the screen.
        capture: bool,
    },
    /// Read the screen.
    ReadScreen {
        /// Session name.
        session: String,
    },
    /// Scroll.
    Scroll {
        /// Session name.
        session: String,
        /// Direction.
        direction: CliScrollDirection,
        /// Amount.
        amount: u16,
    },
}

/// Options and command of an API call.
pub struct ApiArgs {
    /// Base URL of the gateway.
    pub url: Option<String>,
    /// Access token of the gateway.
    pub token: Option<String>,
    /// Id of the agent that writes.
    pub controller_id: u64,
    /// Command.
    pub command: ApiCommand,
}

/// Body of an API request.
#[derive(Debug, Clone, PartialEq, Eq)]
pub enum ApiBody {
    /// No body.
    Empty,
    /// The agent alone.
    Controller {
        /// Id of the agent.
        controller_id: u64,
    },
    /// Text to write.
    Text {
        /// Id of the agent.
        controller_id: u64,
        /// Text.
        text: String,
    },
    /// Key to press.
    Key {
        /// Id of the agent.
        controller_id: u64,
        /// Key.
        key: String,
    },
    /// Command to run.
    RunCommand {
        /// Id of the agent.
        controller_id: u64,
        /// Command line.
        command: String,
        /// Text to wait for.
        wait_for: Option<String>,
        /// How long to wait, in milliseconds.
        wait_timeout_ms: Option<u64>,
        /// Return the screen.
        capture: bool,
    },
    /// Scroll.
    Scroll {
        /// Id of the agent.
        controller_id: u64,
        /// Direction.
        direction: CliScrollDirection,
        /// Amount.
        amount: u16,
    },
}

impl ApiCommand {
    /// The session that the command names.
    pub open spec fn session_text(self) -> Seq<char> {
        match self {
            ApiCommand::AcquireLock { session } => session@,
            ApiCommand::ReleaseLock { session } => session@,
            ApiCommand::SendText { session, .. } => session@,
            ApiCommand::SendKey { session, .. } => session@,
            ApiCommand::RunCommand { session, .. } => session@,
            ApiCommand::ReadScreen { session } => session@,
            ApiCommand::Scroll { session, .. } => session@,
        }
    }

    /// The operation that the command calls.
    pub open spec fn operation(self) -> Seq<char> {
        match self {
            ApiCommand::AcquireLock { .. } => "acquire-lock"@,
            ApiCommand::ReleaseLock { .. } => "release-lock"@,
            ApiCommand::SendText { .. } => "write-text"@,
            ApiCommand::SendKey { .. } => "press-key"@,
            ApiCommand::RunCommand { .. } => "run-command"@,
            ApiCommand::ReadScreen { .. } => "read-screen"@,
            ApiCommand::Scroll { .. } => "scroll"@,
        }
    }

    /// The body of the request.
    pub open spec fn body(self, controller_id: u64) -> ApiBody {
        match self {
            ApiCommand::AcquireLock { .. } => ApiBody::Controller { controller_id },
            ApiCommand::ReleaseLock { .. } => ApiBody::Controller { controller_id },
            ApiCommand::SendText { text, .. } => ApiBody::Text { controller_id, text },
            ApiCommand::SendKey { key, .. } => ApiBody::Key { controller_id, key },
            ApiCommand::RunCommand { command, wait_for, wait_timeout_ms, capture, .. } =>
                ApiBody::RunCommand { controller_id, command, wait_for, wait_timeout_ms, capture },
            ApiCommand::ReadScreen { .. } => ApiBody::Empty,
            ApiCommand::Scroll { direction, amount, .. } => ApiBody::Scroll {
                controller_id,
                direction,
                amount,
            },
        }
    }
}

/// Where an API call goes.
#[derive(Debug, Clone, PartialEq, Eq)]
pub struct ApiEndpoint {
    /// Base URL of the gateway.
    pub url: String,
    /// Operation.
    pub path: &'static str,
}

fn session_of(session: &str) -> (r: Result<SessionName, CliError>)
    ensures
        match r {
            Ok(name) => crate::protocol::valid_session_name(session@) && name@ == session@,
            Err(error) => !crate::protocol::valid_session_name(session@) && error
                == CliError::SessionName,
        },
{
    match SessionName::new(session) {
        Ok(name) => Ok(name),
        Err(_) => Err(CliError::SessionName),
    }
}

/// Returns the session, the endpoint and the body of an API call.
pub fn api_request(args: ApiArgs) -> (r: Result<(SessionName, ApiEndpoint, ApiBody), CliError>)
    ensures
        match args.url {
            None => r == Err::<(SessionName, ApiEndpoint, ApiBody), CliError>(
                CliError::UrlMissing,
            ),
            Some(url) => match r {
                Ok(request) => {
                    &&& crate::protocol::valid_session_name(args.command.session_text())
                    &&& request.0@ == args.command.session_text()
                    &&& request.1.url@ == url@
                    &&& request.1.path@ == args.command.operation()
                    &&& request.2 == args.command.body(args.controller_id)
                },
                Err(error) => {
                    &&& !crate::protocol::valid_session_name(args.command.session_text())
                    &&& error == CliError::SessionName
                },
            },
        },
{
    let url = match args.url {
        Some(url) => url,
        None => return Err(CliError::UrlMissing),
    };
    let controller_id = args.controller_id;
    let (session, path, body): (String, &'static str, ApiBody) = match args.command {
        ApiCommand::AcquireLock { session } => (
            session,
            "acquire-lock",
            ApiBody::Controller { controller_id },
        ),
        ApiCommand::ReleaseLock { session } => (
            session,
            "release-lock",
            ApiBody::Controller { controller_id },
        ),
        ApiCommand::SendText { session, text } => (
            session,
            "write-text",
            ApiBody::Text { controller_id, text },
        ),
        ApiCommand::SendKey { session, key } => (
            session,
            "press-key",
            ApiBody::Key { controller_id, key },
        ),
        ApiCommand::RunCommand { session, command, wait_for, wait_timeout_ms, capture } => (
            session,
            "run-command",
            ApiBody::RunCommand { controller_id, command, wait_for, wait_timeout_ms, capture },
        ),
        ApiCommand::ReadScreen { session } => (session, "read-screen", ApiBody::Empty),
        ApiCommand::Scroll { session, direction, amount } => (
            session,
            "scroll",
            ApiBody::Scroll { controller_id, direction, amount },
        ),
    };
    match session_of(session.as_str()) {
        Ok(name) => Ok((name, ApiEndpoint { url, path }, body)),
        Err(error) => Err(error),
    }
}

/// Reads the access token of an API call.
pub fn api_token(token: Option<&str>) -> (r: Result<AccessToken, CliError>)
    ensures
        match token {
            None => r matches Err(error) && error == CliError::TokenMissing,
            Some(text) => match r {
                Ok(token) => crate::protocol::token_bytes(text@) == Some(token@),
                Err(error) => crate::protocol::token_bytes(text@) is None && error
                    == CliError::Token,
            },
        },
{
    match token {
        Some(text) => match AccessToken::parse(text) {
            Ok(token) => Ok(token),
            Err(_) => Err(CliError::Token),
        },
        None => Err(CliError::TokenMissing),
    }
}

/// What is wrong with the base URL of a gateway: it is an `http` URL with a host,
/// without credentials and without a fragment.
pub open spec fn base_url_error(url: UrlView) -> Option<CliError> {
    if url.scheme != "http"@ {
        Some(CliError::UrlScheme)
    } else if url.username.len() > 0 || url.password is Some {
        Some(CliError::UrlCredentials)
    } else if url.host is None {
        Some(CliError::UrlHost)
    } else if url.fragment is Some {
        Some(CliError::UrlFragment)
    } else {
        None
    }
}

/// Validates the parts of the base URL of a gateway.
pub fn validate_base_url(url: &UrlParts) -> (r: Result<(), CliError>)
    ensures
        match r {
            Ok(_) => base_url_error(url@) is None,
            Err(error) => base_url_error(url@) == Some(error),
        },
{
    if !crate::text::same_text(url.scheme.as_str(), "http") {
        return Err(CliError::UrlScheme);
    }
    if !url.username.as_str().is_empty() || url.password.is_some() {
        return Err(CliError::UrlCredentials);
    }
    if url.host.is_none() {
        return Err(CliError::UrlHost);
    }
    if url.fragment.is_some() {
        return Err(CliError::UrlFragment);
    }
    Ok(())
}

/// Reads the base URL of a gateway.
pub fn parse_http_url(value: &str) -> (r: Result<UrlParts, CliError>)
    ensures
        match crate::web_url::parsed_url(value@) {
            None => r matches Err(error) && error == CliError::Url,
            Some(url) => match r {
                Ok(parts) => {
                    &&& base_url_error(url) is None
                    &&& parts@ == url
                    &&& is_gateway_url(parts@)
                },
                Err(error) => base_url_error(url) == Some(error),
            },
        },
{
    match crate::web_url::parse_url(value) {
        Some(parts) => match validate_base_url(&parts) {
            Ok(_) => Ok(parts),
            Err(error) => Err(error),
        },
        None => Err(CliError::Url),
    }
}

/// Path of an operation on a session, behind the path of the gateway.
pub open spec fn endpoint_path(path: Seq<char>, session: Seq<char>, operation: Seq<char>) -> Seq<
    char,
> {
    crate::text::without_trailing(path, crate::text::just('/')) + "/api/sessions/"@ + session
        + "/"@ + operation
}

/// URL of an operation on a session: the URL of the gateway with the path of the
/// operation and the access token as its query.
pub open spec fn endpoint_text(
    url: UrlView,
    session: Seq<char>,
    operation: Seq<char>,
    token: Seq<u8>,
) -> Seq<char> {
    crate::web_url::url_with_pair(
        crate::web_url::url_with_path(
            crate::web_url::url_without_query(url.text),
            endpoint_path(url.path, session, operation),
        ),
        "token"@,
        crate::protocol::hex_text(token),
    )
}

/// Tells whether the URL of an operation can be written: neither the URL of the gateway,
/// without its query, nor that with the path of the operation exceeds what a `u32` counts.
pub open spec fn endpoint_fits(url: UrlView, session: Seq<char>, operation: Seq<char>) -> bool {
    let bare = crate::text::byte_len(crate::web_url::url_without_query(url.text));
    &&& bare <= u32::MAX
    &&& bare + crate::web_url::path_room(endpoint_path(url.path, session, operation)) <= u32::MAX
        + crate::text::byte_len(url.path)
}

/// Tells whether `url` is an `http` URL without a fragment, in its normal form.
pub open spec fn is_gateway_url(url: UrlView) -> bool {
    &&& crate::web_url::parsed_url(url.text) == Some(url)
    &&& url.scheme == "http"@
    &&& url.fragment is None
}

/// Returns the path of an operation on a session, behind the path of the gateway.
fn path_of_endpoint(path: &str, session: &SessionName, operation: &str) -> (r: String)
    ensures
        r@ == endpoint_path(path@, session@, operation@),
{
    let mut text = crate::text::trim_end_matches(path, '/');
    text.append("/api/sessions/");
    text.append(session.as_str());
    text.append("/");
    text.append(operation);
    proof {
        assert(text@ =~= endpoint_path(path@, session@, operation@));
    }
    text
}

/// Returns the URL of an operation on a session of the gateway with the URL
/// `url`.
pub fn endpoint_url(
    url: &UrlParts,
    session: &SessionName,
    operation: &str,
    token: &AccessToken,
) -> (r: String)
    requires
        is_gateway_url(url@),
        endpoint_fits(url@, session@, operation@),
    ensures
        r@ == endpoint_text(url@, session@, operation@, token@),
{
    let path = path_of_endpoint(url.path.as_str(), session, operation);
    let value = token.to_url_token();
    let text = crate::web_url::clear_url_query(url.text.as_str());
    let text = crate::web_url::set_url_path(text.as_str(), path.as_str());
    crate::web_url::append_url_pair(text.as_str(), "token", value.as_str())
}

/// Returns the URL of an operation on a session of the gateway with the base URL
/// `base_url`.
pub fn api_endpoint_url(
    base_url: &str,
    session: &SessionName,
    operation: &str,
    token: &AccessToken,
) -> (r: Result<String, CliError>)
    ensures
        match crate::web_url::parsed_url(base_url@) {
            None => r matches Err(error) && error == CliError::Url,
            Some(url) => match r {
                Ok(text) => {
                    &&& base_url_error(url) is None
                    &&& endpoint_fits(url, session@, operation@)
                    &&& text@ == endpoint_text(url, session@, operation@, token@)
                },
                Err(error) => match base_url_error(url) {
                    Some(reason) => error == reason,
                    None => !endpoint_fits(url, session@, operation@) && error
                        == CliError::UrlTooLong,
                },
            },
        },
{
    let url = match parse_http_url(base_url) {
        Ok(url) => url,
        Err(error) => return Err(error),
    };
    let bare = crate::web_url::clear_url_query(url.text.as_str());
    let bare_len: u128 = bare.as_str().as_bytes().len() as u128;
    let path_len: u128 = url.path.as_str().as_bytes().len() as u128;
    let path = path_of_endpoint(url.path.as_str(), session, operation);
    let room: u128 = crate::web_url::room_of_path(path.as_str());
    if bare_len > u32::MAX as u128 || bare_len + room > u32::MAX as u128 + path_len {
        return Err(CliError::UrlTooLong);
    }
    Ok(endpoint_url(&url, session, operation, token))
}

/// Each command calls the operation that it is named for, under the route on which it is
/// served, and no two kinds of commands call the same one.
pub proof fn law_commands_call_their_operations(command: ApiCommand, other: ApiCommand)
    ensures
        command is AcquireLock ==> command.operation() == "acquire-lock"@,
        command is ReleaseLock ==> command.operation() == "release-lock"@,
        command is SendText ==> command.operation() == "write-text"@,
        command is SendKey ==> command.operation() == "press-key"@,
        command is RunCommand ==> command.operation() == "run-command"@,
        command is ReadScreen ==> command.operation() == "read-screen"@,
        command is Scroll ==> command.operation() == "scroll"@,
        command.operation() == other.operation() ==> {
            &&& command is AcquireLock == other is AcquireLock
            &&& command is ReleaseLock == other is ReleaseLock
            &&& command is SendText == other is SendText
            &&& command is SendKey == other is SendKey
            &&& command is RunCommand == other is RunCommand
            &&& command is ReadScreen == other is ReadScreen
            &&& command is Scroll == other is Scroll
        },
{
    reveal_strlit("acquire-lock");
    reveal_strlit("release-lock");
    reveal_strlit("write-text");
    reveal_strlit("press-key");
    reveal_strlit("run-command");
    reveal_strlit("read-screen");
    reveal_strlit("scroll");
    assert("acquire-lock"@.len() == 12 && "release-lock"@.len() == 12);
    assert("acquire-lock"@[0] == 'a' && "release-lock"@[0] == 'r');
    assert("run-command"@.len() == 11 && "read-screen"@.len() == 11);
    assert("run-command"@[1] == 'u' && "read-screen"@[1] == 'e');
    assert("write-text"@.len() == 10 && "press-key"@.len() == 9 && "scroll"@.len() == 6);
}

/// A request names the session of its command, says who asks wherever it writes, and carries
/// what is to be written unchanged. Reading the screen needs no body.
pub proof fn law_requests_carry_their_commands(command: ApiCommand, id: u64)
    ensures
        match command {
            ApiCommand::AcquireLock { session } | ApiCommand::ReleaseLock { session } => {
                &&& command.session_text() == session@
                &&& command.body(id) matches ApiBody::Controller { controller_id }
                &&& controller_id == id
            },
            ApiCommand::SendText { session, text } => {
                &&& command.session_text() == session@
                &&& command.body(id) matches ApiBody::Text { controller_id, text: sent }
                &&& controller_id == id && sent == text
            },
            ApiCommand::SendKey { session, key } => {
                &&& command.session_text() == session@
                &&& command.body(id) matches ApiBody::Key { controller_id, key: sent }
                &&& controller_id == id && sent == key
            },
            ApiCommand::RunCommand { session, command: line, wait_for, wait_timeout_ms, capture }
            => {
                &&& command.session_text() == session@
                &&& command.body(id) matches ApiBody::RunCommand {
                    controller_id,
                    command: sent,
                    wait_for: text,
                    wait_timeout_ms: millis,
                    capture: shown,
                }
                &&& controller_id == id && sent == line && text == wait_for
                &&& millis == wait_timeout_ms && shown == capture
            },
            ApiCommand::ReadScreen { session } => {
                &&& command.session_text() == session@
                &&& command.body(id) is Empty
            },
            ApiCommand::Scroll { session, direction, amount } => {
                &&& command.session_text() == session@
                &&& command.body(id) matches ApiBody::Scroll {
                    controller_id,
                    direction: way,
                    amount: lines,
                }
                &&& controller_id == id && way == direction && lines == amount
            },
        },
{
}

/// The path of an operation names the session and the operation behind the path of the
/// gateway, which reads the same with and without slashes at its end.
pub proof fn law_endpoint_paths_name_session_and_operation(
    path: Seq<char>,
    session: Seq<char>,
    operation: Seq<char>,
)
    ensures
        path.len() == 0 || path.last() != '/' ==> endpoint_path(path, session, operation) == path
            + "/api/sessions/"@ + session + "/"@ + operation,
        endpoint_path(path.push('/'), session, operation) == endpoint_path(
            path,
            session,
            operation,
        ),
{
    assert(path.push('/').drop_last() =~= path);
}

/// A base URL is refused exactly where it is no plain `http` URL: another scheme,
/// credentials, no host, or a fragment, the first of these being told.
pub proof fn law_base_urls_are_plain(url: UrlView)
    ensures
        base_url_error(url) is None <==> url.scheme == "http"@ && url.username.len() == 0
            && url.password is None && url.host is Some && url.fragment is None,
        url.scheme != "http"@ ==> base_url_error(url) == Some(CliError::UrlScheme),
        url.scheme == "http"@ && (url.username.len() > 0 || url.password is Some)
            ==> base_url_error(url) == Some(CliError::UrlCredentials),
        url.scheme == "http"@ && url.username.len() == 0 && url.password is None && url.host is None
            ==> base_url_error(url) == Some(CliError::UrlHost),
        url.scheme == "http"@ && url.username.len() == 0 && url.password is None && url.host is Some
            && url.fragment is Some ==> base_url_error(url) == Some(CliError::UrlFragment),
{
}

/// The URL of an operation is that of the gateway without its query, with the path of the
/// operation, and with the access token as its only query; the token is one that reads back
/// as the same token.
pub proof fn law_endpoint_carries_the_token(
    url: UrlView,
    session: Seq<char>,
    operation: Seq<char>,
    token: Seq<u8>,
)
    requires
        token.len() == 32,
    ensures
        exists|value: Seq<char>|
            #![trigger crate::protocol::token_bytes(value)]
            {
                &&& crate::protocol::token_bytes(value) == Some(token)
                &&& endpoint_text(url, session, operation, token) == crate::web_url::url_with_pair(
                    crate::web_url::url_with_path(
                        crate::web_url::url_without_query(url.text),
                        crate::text::without_trailing(url.path, crate::text::just('/'))
                            + "/api/sessions/"@ + session + "/"@ + operation,
                    ),
                    "token"@,
                    value,
                )
            },
{
    crate::protocol::law_token_round_trip(token);
    assert(crate::protocol::token_bytes(crate::protocol::hex_text(token)) == Some(token));
}

} // verus!
