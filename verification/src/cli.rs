//! What the command line asks for, validated.

use vstd::prelude::*;

use crate::backend::{BackendError, BackendScrollDirection, FailureView};
use crate::cli_sessions::{
    CliBackend, CliSessionInspectDetails, CliSessionRecord, NameError,
};
use crate::clock::Duration;
use crate::net::IpAddr;
use crate::protocol::{AccessToken, ProtocolError, SessionName, TerminalSize};
use crate::rmux_backend::{RmuxSessionCommand, RmuxSessionInfo};
use crate::security::{BasePath, PublicBaseUrl, PublicUrlView};
use crate::tmux_backend::{TmuxSessionCommand, TmuxSessionInfo};
use crate::web::{PresentationSettings, PresentationTheme};

verus! {

/// Default browser terminal font size in CSS pixels.
pub const DEFAULT_FONT_SIZE: u16 = 24;

/// Smallest browser terminal font size.
pub const FONT_SIZE_MIN: u16 = 12;

/// Largest browser terminal font size.
pub const FONT_SIZE_MAX: u16 = 96;

/// Longest name of the variable that holds an access token, in bytes.
pub const TOKEN_ENV_MAX_BYTES: usize = 128;

/// A text on the command line.
#[derive(Debug, Clone, Copy, PartialEq, Eq, Structural)]
pub enum TextField {
    /// Text to send.
    Text,
    /// Command to run.
    Command,
    /// Text to wait for.
    WaitFor,
}

impl TextField {
    /// Name of the text.
    pub open spec fn text(self) -> Seq<char> {
        match self {
            TextField::Text => "text"@,
            TextField::Command => "command"@,
            TextField::WaitFor => "wait-for"@,
        }
    }

    /// Returns the name of the text.
    #[must_use]
    pub fn as_str(self) -> (r: &'static str)
        ensures
            r@ == self.text(),
    {
        match self {
            TextField::Text => "text",
            TextField::Command => "command",
            TextField::WaitFor => "wait-for",
        }
    }
}

/// What is wrong with a command line.
#[derive(Debug, Clone, Copy, PartialEq, Eq, Structural)]
pub enum CliError {
    /// Command arguments without a command.
    CommandArgsWithoutCommand,
    /// Name of a session to create.
    Name(NameError),
    /// Session id.
    SessionId,
    /// Session name.
    SessionName,
    /// Font size.
    FontSize,
    /// Command words of an rmux session.
    RmuxCommand,
    /// Base path.
    BasePath,
    /// Public mode without a public URL.
    PublicUrlMissing,
    /// Public URL.
    PublicUrl,
    /// Public mode without a token variable.
    TokenEnvMissing,
    /// Empty name of the token variable.
    TokenEnvEmpty,
    /// Name of the token variable that is too long.
    TokenEnvTooLong,
    /// First character of the name of the token variable.
    TokenEnvStart,
    /// Character of the name of the token variable.
    TokenEnvCharacters,
    /// The token variable is not set.
    TokenUnset,
    /// Access token in the token variable.
    TokenValue,
    /// Local mode on an address that other machines reach.
    HostNotLoopback,
    /// Public URL in local mode.
    PublicUrlInLocalMode,
    /// Token variable in local mode.
    TokenEnvInLocalMode,
    /// No random bytes for an access token.
    TokenGeneration,
    /// A text that is too long.
    TextTooLong {
        /// The text.
        field: TextField,
        /// How long it may be.
        max_bytes: usize,
    },
    /// A text with a NUL.
    TextHasNul(TextField),
    /// An empty text.
    TextEmpty(TextField),
    /// A command with a line break.
    CommandLineBreak,
    /// Length of a key.
    KeyLength,
    /// A key that is not known.
    KeyUnsupported,
    /// Scroll amount.
    ScrollAmount,
    /// Wait timeout.
    WaitTimeout,
    /// API call without a token.
    TokenMissing,
    /// Access token of an API call.
    Token,
    /// API call without a URL.
    UrlMissing,
    /// URL of an API call.
    Url,
    /// URL of an API call with another scheme than `http`.
    UrlScheme,
    /// URL of an API call with credentials.
    UrlCredentials,
    /// URL of an API call without a host.
    UrlHost,
    /// URL of an API call with a fragment.
    UrlFragment,
    /// URL of an API call that is too long.
    UrlTooLong,
}

impl CliError {
    /// The text of the failure.
    pub open spec fn text(self) -> Seq<char> {
        match self {
            CliError::Name(error) => error.text(),
            CliError::TextTooLong { field, max_bytes } => field.text() + " must be at most "@
                + crate::text::decimal_text(max_bytes as nat) + " bytes"@,
            CliError::TextHasNul(field) => field.text() + " must not contain NUL bytes"@,
            CliError::TextEmpty(field) => field.text() + " must not be empty"@,
            CliError::CommandArgsWithoutCommand => "--command-arg requires --command"@,
            CliError::SessionId => "invalid session id"@,
            CliError::SessionName => "invalid session name"@,
            CliError::FontSize => "font size must be in 12..=96"@,
            CliError::RmuxCommand => "invalid rmux command argv"@,
            CliError::BasePath => "invalid --base-path"@,
            CliError::PublicUrlMissing => "--public-url is required with --expose-public"@,
            CliError::PublicUrl => "invalid --public-url for public exposure"@,
            CliError::TokenEnvMissing => "--token-env is required with --expose-public"@,
            CliError::TokenEnvEmpty => "--token-env must not be empty"@,
            CliError::TokenEnvTooLong => "--token-env must be at most 128 bytes"@,
            CliError::TokenEnvStart => "--token-env must start with A-Z or _"@,
            CliError::TokenEnvCharacters => "--token-env must contain only A-Z, 0-9, and _"@,
            CliError::TokenUnset => "failed to read access token from the variable of --token-env"@,
            CliError::TokenValue => "invalid access token in the variable of --token-env"@,
            CliError::HostNotLoopback => "browser terminal bind host must be loopback unless --expose-public is set"@,
            CliError::PublicUrlInLocalMode => "--public-url requires --expose-public"@,
            CliError::TokenEnvInLocalMode => "--token-env requires --expose-public"@,
            CliError::TokenGeneration => "failed to generate browser access token"@,
            CliError::CommandLineBreak => "command must not contain line breaks"@,
            CliError::KeyLength => "key must be non-empty and at most 32 bytes"@,
            CliError::KeyUnsupported => "unsupported semantic key token"@,
            CliError::ScrollAmount => "amount must be in 1..=100"@,
            CliError::WaitTimeout => "wait timeout must be in 1..=60000 milliseconds"@,
            CliError::TokenMissing => "--token is required"@,
            CliError::Token => "invalid --token"@,
            CliError::UrlMissing => "--url is required"@,
            CliError::Url => "invalid --url"@,
            CliError::UrlScheme => "semantic API CLI currently supports http URLs only"@,
            CliError::UrlCredentials => "--url must not contain credentials"@,
            CliError::UrlHost => "--url must include a host"@,
            CliError::UrlFragment => "--url must not contain a fragment"@,
            CliError::UrlTooLong => "--url is too long"@,
        }
    }

    /// Returns the text of the failure.
    #[must_use]
    pub fn message(self) -> (r: String)
        ensures
            r@ == self.text(),
    {
        match self {
            CliError::Name(error) => error.message().to_owned(),
            CliError::TextTooLong { field, max_bytes } => {
                let mut text = field.as_str().to_owned();
                text.append(" must be at most ");
                text.append(crate::text::decimal(max_bytes as u64).as_str());
                text.append(" bytes");
                text
            },
            CliError::TextHasNul(field) => field.as_str().to_owned().concat(
                " must not contain NUL bytes",
            ),
            CliError::TextEmpty(field) => field.as_str().to_owned().concat(" must not be empty"),
            CliError::CommandArgsWithoutCommand => "--command-arg requires --command".to_owned(),
            CliError::SessionId => "invalid session id".to_owned(),
            CliError::SessionName => "invalid session name".to_owned(),
            CliError::FontSize => "font size must be in 12..=96".to_owned(),
            CliError::RmuxCommand => "invalid rmux command argv".to_owned(),
            CliError::BasePath => "invalid --base-path".to_owned(),
            CliError::PublicUrlMissing => "--public-url is required with --expose-public".to_owned(),
            CliError::PublicUrl => "invalid --public-url for public exposure".to_owned(),
            CliError::TokenEnvMissing => "--token-env is required with --expose-public".to_owned(),
            CliError::TokenEnvEmpty => "--token-env must not be empty".to_owned(),
            CliError::TokenEnvTooLong => "--token-env must be at most 128 bytes".to_owned(),
            CliError::TokenEnvStart => "--token-env must start with A-Z or _".to_owned(),
            CliError::TokenEnvCharacters => "--token-env must contain only A-Z, 0-9, and _".to_owned(),
            CliError::TokenUnset => "failed to read access token from the variable of --token-env".to_owned(),
            CliError::TokenValue => "invalid access token in the variable of --token-env".to_owned(),
            CliError::HostNotLoopback => "browser terminal bind host must be loopback unless --expose-public is set".to_owned(),
            CliError::PublicUrlInLocalMode => "--public-url requires --expose-public".to_owned(),
            CliError::TokenEnvInLocalMode => "--token-env requires --expose-public".to_owned(),
            CliError::TokenGeneration => "failed to generate browser access token".to_owned(),
            CliError::CommandLineBreak => "command must not contain line breaks".to_owned(),
            CliError::KeyLength => "key must be non-empty and at most 32 bytes".to_owned(),
            CliError::KeyUnsupported => "unsupported semantic key token".to_owned(),
            CliError::ScrollAmount => "amount must be in 1..=100".to_owned(),
            CliError::WaitTimeout => "wait timeout must be in 1..=60000 milliseconds".to_owned(),
            CliError::TokenMissing => "--token is required".to_owned(),
            CliError::Token => "invalid --token".to_owned(),
            CliError::UrlMissing => "--url is required".to_owned(),
            CliError::Url => "invalid --url".to_owned(),
            CliError::UrlScheme => "semantic API CLI currently supports http URLs only".to_owned(),
            CliError::UrlCredentials => "--url must not contain credentials".to_owned(),
            CliError::UrlHost => "--url must include a host".to_owned(),
            CliError::UrlFragment => "--url must not contain a fragment".to_owned(),
            CliError::UrlTooLong => "--url is too long".to_owned(),
        }
    }
}

impl CliError {
    /// The text of a failure to attach, where `token_env` names the token variable.
    pub open spec fn attach_text(self, token_env: Option<Seq<char>>) -> Seq<char> {
        match (self, token_env) {
            (CliError::TokenUnset, Some(name)) => "failed to read access token from $"@ + name,
            (CliError::TokenValue, Some(name)) => "invalid access token in $"@ + name,
            _ => self.text(),
        }
    }

    /// Returns the text of a failure to attach, where `token_env` names the token
    /// variable.
    #[must_use]
    pub fn attach_message(self, token_env: Option<&str>) -> (r: String)
        ensures
            r@ == self.attach_text(opt_str(token_env)),
    {
        match (self, token_env) {
            (CliError::TokenUnset, Some(name)) => {
                let mut text = String::from_str("failed to read access token from $");
                text.append(name);
                text
            },
            (CliError::TokenValue, Some(name)) => {
                let mut text = String::from_str("invalid access token in $");
                text.append(name);
                text
            },
            _ => self.message(),
        }
    }
}

/// What may go wrong with the name of the token variable.
pub open spec fn token_env_error(name: Seq<char>) -> Option<CliError> {
    if name.len() == 0 {
        Some(CliError::TokenEnvEmpty)
    } else if crate::text::byte_len(name) > TOKEN_ENV_MAX_BYTES {
        Some(CliError::TokenEnvTooLong)
    } else if !('A' <= name[0] <= 'Z' || name[0] == '_') {
        Some(CliError::TokenEnvStart)
    } else if !forall|i: int| 0 <= i < name.len() ==> is_env_char(#[trigger] name[i]) {
        Some(CliError::TokenEnvCharacters)
    } else {
        None
    }
}

/// The characters of a token variable: `A-Z`, `0-9` and `_`.
pub open spec fn is_env_char(c: char) -> bool {
    'A' <= c <= 'Z' || '0' <= c <= '9' || c == '_'
}

/// Validates the name of the token variable.
pub fn validate_token_env_name(value: &str) -> (r: Result<(), CliError>)
    ensures
        match r {
            Ok(_) => token_env_error(value@) is None,
            Err(error) => token_env_error(value@) == Some(error),
        },
{
    let chars = crate::text::chars_of(value);
    if chars.len() == 0 {
        return Err(CliError::TokenEnvEmpty);
    }
    if value.as_bytes().len() > TOKEN_ENV_MAX_BYTES {
        return Err(CliError::TokenEnvTooLong);
    }
    let first = chars[0];
    if !(('A' <= first && first <= 'Z') || first == '_') {
        return Err(CliError::TokenEnvStart);
    }
    let mut i: usize = 0;
    while i < chars.len()
        invariant
            i <= chars@.len(),
            chars@ == value@,
            chars@.len() > 0,
            crate::text::byte_len(value@) <= TOKEN_ENV_MAX_BYTES,
            'A' <= value@[0] <= 'Z' || value@[0] == '_',
            forall|k: int| 0 <= k < i ==> is_env_char(#[trigger] chars@[k]),
        decreases chars@.len() - i,
    {
        let c = chars[i];
        if !(('A' <= c && c <= 'Z') || ('0' <= c && c <= '9') || c == '_') {
            proof {
                assert(!is_env_char(value@[i as int]));
            }
            return Err(CliError::TokenEnvCharacters);
        }
        i += 1;
    }
    Ok(())
}

/// How a browser server is exposed.
#[derive(Clone, PartialEq, Eq)]
pub enum WebExposure {
    /// To this machine alone.
    Local,
    /// Behind an HTTPS ingress.
    Public {
        /// Browser-visible base URL.
        public_url: PublicBaseUrl,
    },
}

/// The contents of an exposure and its access token.
pub enum ExposureView {
    /// To this machine alone, with a token that is made for it.
    Local,
    /// Behind an HTTPS ingress, with a given token.
    Public {
        /// Browser-visible base URL.
        public_url: PublicUrlView,
        /// Access token.
        token: Seq<u8>,
    },
}

/// The public base URL that a text writes.
pub open spec fn public_url_of(text: Seq<char>) -> Option<PublicUrlView> {
    match crate::web_url::parsed_url(text) {
        Some(parts) => crate::security::public_base(parts),
        None => None,
    }
}

/// The exposure that is asked for. Public mode needs a public URL and a variable
/// that holds the access token; local mode takes neither, and binds to this
/// machine.
pub open spec fn exposure_of(
    expose_public: bool,
    host: IpAddr,
    public_url: Option<Seq<char>>,
    token_env: Option<Seq<char>>,
    token_value: Option<Seq<char>>,
) -> Result<ExposureView, CliError> {
    if !expose_public {
        if !host.loopback() {
            Err(CliError::HostNotLoopback)
        } else if public_url is Some {
            Err(CliError::PublicUrlInLocalMode)
        } else if token_env is Some {
            Err(CliError::TokenEnvInLocalMode)
        } else {
            Ok(ExposureView::Local)
        }
    } else {
        match public_url {
            None => Err(CliError::PublicUrlMissing),
            Some(text) => match public_url_of(text) {
                None => Err(CliError::PublicUrl),
                Some(url) => match token_env {
                    None => Err(CliError::TokenEnvMissing),
                    Some(name) => match token_env_error(name) {
                        Some(error) => Err(error),
                        None => match token_value {
                            None => Err(CliError::TokenUnset),
                            Some(value) => match crate::protocol::token_bytes(value) {
                                None => Err(CliError::TokenValue),
                                Some(token) => Ok(ExposureView::Public { public_url: url, token }),
                            },
                        },
                    },
                },
            },
        }
    }
}

/// Tells whether an exposure and a token are what was asked for.
pub open spec fn exposed_as(exposure: WebExposure, token: Seq<u8>, view: ExposureView) -> bool {
    match view {
        ExposureView::Local => {
            &&& exposure is Local
            &&& token.len() == crate::protocol::ACCESS_TOKEN_BYTES
        },
        ExposureView::Public { public_url: url, token: given } => {
            &&& exposure matches WebExposure::Public { public_url }
            &&& public_url@ == url
            &&& token == given
        },
    }
}

/// The contents of an optional text.
pub open spec fn opt_str(text: Option<&str>) -> Option<Seq<char>> {
    match text {
        Some(text) => Some(text@),
        None => None,
    }
}

/// The exposure that is asked for and the access token that was given for it.
/// `token_value` is what the token variable holds. Local mode has no given token.
pub fn exposure_from_parts(
    expose_public: bool,
    host: IpAddr,
    public_url: Option<&str>,
    token_env: Option<&str>,
    token_value: Option<&str>,
) -> (r: Result<(WebExposure, Option<AccessToken>), CliError>)
    ensures
        match exposure_of(
            expose_public,
            host,
            opt_str(public_url),
            opt_str(token_env),
            opt_str(token_value),
        ) {
            Err(error) => r == Err::<(WebExposure, Option<AccessToken>), CliError>(error),
            Ok(ExposureView::Local) => {
                &&& r matches Ok(parts)
                &&& parts.0 is Local
                &&& parts.1 is None
            },
            Ok(view) => {
                &&& r matches Ok(parts)
                &&& parts.1 matches Some(token)
                &&& exposed_as(parts.0, token@, view)
            },
        },
{
    if !expose_public {
        if !host.is_loopback() {
            return Err(CliError::HostNotLoopback);
        }
        if public_url.is_some() {
            return Err(CliError::PublicUrlInLocalMode);
        }
        if token_env.is_some() {
            return Err(CliError::TokenEnvInLocalMode);
        }
        return Ok((WebExposure::Local, None));
    }
    let public_url = match public_url {
        Some(text) => match PublicBaseUrl::parse(text) {
            Ok(url) => url,
            Err(_) => return Err(CliError::PublicUrl),
        },
        None => return Err(CliError::PublicUrlMissing),
    };
    let name = match token_env {
        Some(name) => name,
        None => return Err(CliError::TokenEnvMissing),
    };
    match validate_token_env_name(name) {
        Ok(_) => {},
        Err(error) => return Err(error),
    }
    let value = match token_value {
        Some(value) => value,
        None => return Err(CliError::TokenUnset),
    };
    match AccessToken::parse(value) {
        Ok(token) => Ok((WebExposure::Public { public_url }, Some(token))),
        Err(_) => Err(CliError::TokenValue),
    }
}

/// An exposure with the access token that was drawn for it, or the failure to draw one.
pub fn exposure_with_token(
    exposure: WebExposure,
    drawn: Result<AccessToken, ProtocolError>,
) -> (r: Result<(WebExposure, AccessToken), CliError>)
    ensures
        r == (match drawn {
            Ok(token) => Ok::<(WebExposure, AccessToken), CliError>((exposure, token)),
            Err(_) => Err(CliError::TokenGeneration),
        }),
{
    match drawn {
        Ok(token) => Ok((exposure, token)),
        Err(_) => Err(CliError::TokenGeneration),
    }
}

/// The exposure that is asked for and its access token, which is made for local
/// mode. `token_value` is what the token variable holds.
pub fn exposure_and_token_from_parts(
    expose_public: bool,
    host: IpAddr,
    public_url: Option<&str>,
    token_env: Option<&str>,
    token_value: Option<&str>,
) -> (r: Result<(WebExposure, AccessToken), CliError>)
    ensures
        match exposure_of(
            expose_public,
            host,
            opt_str(public_url),
            opt_str(token_env),
            opt_str(token_value),
        ) {
            Err(error) => r == Err::<(WebExposure, AccessToken), CliError>(error),
            Ok(view) => match r {
                Ok(parts) => exposed_as(parts.0, parts.1@, view),
                Err(error) => view is Local && error == CliError::TokenGeneration,
            },
        },
{
    match exposure_from_parts(expose_public, host, public_url, token_env, token_value) {
        Ok((exposure, Some(token))) => Ok((exposure, token)),
        Ok((exposure, None)) => exposure_with_token(exposure, AccessToken::generate()),
        Err(error) => Err(error),
    }
}

/// Browser terminal theme on the command line.
#[derive(Debug, Clone, Copy, PartialEq, Eq, Structural)]
pub enum CliTheme {
    /// High-contrast dark theme.
    HighContrast,
    /// Light theme.
    Light,
}

impl CliTheme {
    /// The presentation theme.
    pub open spec fn presentation(self) -> PresentationTheme {
        match self {
            CliTheme::HighContrast => PresentationTheme::HighContrast,
            CliTheme::Light => PresentationTheme::Light,
        }
    }

    /// Returns the presentation theme.
    #[must_use]
    pub fn to_presentation(self) -> (r: PresentationTheme)
        ensures
            r == self.presentation(),
    {
        match self {
            CliTheme::HighContrast => PresentationTheme::HighContrast,
            CliTheme::Light => PresentationTheme::Light,
        }
    }
}

/// How to attach to a session.
#[derive(Debug, Clone, PartialEq, Eq)]
pub struct SessionAttachArgs {
    /// Session id or backend session name.
    pub session_id: String,
    /// Backend, where the session id is ambiguous.
    pub backend: Option<CliBackend>,
    /// Start a browser gateway instead of a native attach.
    pub browser: bool,
    /// Bind address.
    pub host: IpAddr,
    /// TCP port; zero for one that the system selects.
    pub port: u16,
    /// Open the URL in the default browser.
    pub open: bool,
    /// Browser terminal font size in CSS pixels.
    pub font_size: u16,
    /// Browser terminal theme.
    pub theme: CliTheme,
    /// Serve behind an HTTPS ingress.
    pub expose_public: bool,
    /// Browser-visible base URL.
    pub public_url: Option<String>,
    /// Variable that holds the access token.
    pub token_env: Option<String>,
    /// Base path under which all routes stand.
    pub base_path: Option<String>,
}

impl SessionAttachArgs {
    /// The exposure that is asked for.
    pub open spec fn exposure(self, token_value: Option<Seq<char>>) -> Result<
        ExposureView,
        CliError,
    > {
        exposure_of(
            self.expose_public,
            self.host,
            crate::web_url::opt_text(self.public_url),
            crate::web_url::opt_text(self.token_env),
            token_value,
        )
    }

    /// The failure that comes before the exposure is judged.
    pub open spec fn presentation_error(self) -> Option<CliError> {
        if !(FONT_SIZE_MIN <= self.font_size <= FONT_SIZE_MAX) {
            Some(CliError::FontSize)
        } else if self.base_path matches Some(path) && !crate::security::valid_base_path(path@) {
            Some(CliError::BasePath)
        } else {
            None
        }
    }
}

/// A validated browser attach.
pub struct ValidatedSessionAttachConfig {
    /// Session id.
    pub session_id: SessionName,
    /// Backend, where the session id is ambiguous.
    pub backend: Option<CliBackend>,
    /// Bind address.
    pub host: IpAddr,
    /// TCP port.
    pub port: u16,
    /// Open the URL in the default browser.
    pub open: bool,
    /// Presentation settings.
    pub presentation: PresentationSettings,
    /// Exposure.
    pub exposure: WebExposure,
    /// Access token.
    pub token: AccessToken,
    /// Base path.
    pub base_path: Option<BasePath>,
}

/// The contents of an optional base path.
pub open spec fn opt_path(path: Option<BasePath>) -> Option<Seq<char>> {
    match path {
        Some(path) => Some(path@),
        None => None,
    }
}

/// Tells whether `r` comes of validating a browser attach.
pub open spec fn attach_outcome(
    args: SessionAttachArgs,
    token_value: Option<Seq<char>>,
    r: Result<ValidatedSessionAttachConfig, CliError>,
) -> bool {
    match (args.presentation_error(), args.exposure(token_value)) {
        (Some(error), _) => r == Err::<ValidatedSessionAttachConfig, CliError>(error),
        (None, Err(error)) => r == Err::<ValidatedSessionAttachConfig, CliError>(error),
        (None, Ok(view)) => match r {
            Ok(config) => {
                &&& crate::protocol::valid_session_name(args.session_id@)
                &&& config.session_id@ == args.session_id@
                &&& config.backend == args.backend
                &&& config.host == args.host
                &&& config.port == args.port
                &&& config.open == args.open
                &&& config.presentation.font_size == args.font_size
                &&& config.presentation.theme == args.theme.presentation()
                &&& exposed_as(config.exposure, config.token@, view)
                &&& opt_path(config.base_path) == crate::web_url::opt_text(args.base_path)
            },
            Err(error) => {
                ||| view is Local && error == CliError::TokenGeneration
                ||| !crate::protocol::valid_session_name(args.session_id@) && error
                    == CliError::SessionId
            },
        },
    }
}

fn opt_as_str(text: &Option<String>) -> (r: Option<&str>)
    ensures
        opt_str(r) == crate::web_url::opt_text(*text),
{
    match text {
        Some(text) => Some(text.as_str()),
        None => None,
    }
}

impl ValidatedSessionAttachConfig {
    /// Validates a browser attach. `token_value` is what the token variable holds.
    ///
    /// The font size is judged first, then the base path, the exposure and the
    /// session id.
    pub fn try_from(args: SessionAttachArgs, token_value: Option<&str>) -> (r: Result<
        Self,
        CliError,
    >)
        ensures
            attach_outcome(args, opt_str(token_value), r),
    {
        if args.font_size < FONT_SIZE_MIN || args.font_size > FONT_SIZE_MAX {
            return Err(CliError::FontSize);
        }
        let base_path = match &args.base_path {
            Some(value) => match BasePath::parse(value.as_str()) {
                Ok(path) => Some(path),
                Err(_) => return Err(CliError::BasePath),
            },
            None => None,
        };
        let (exposure, token) = match exposure_and_token_from_parts(
            args.expose_public,
            args.host,
            opt_as_str(&args.public_url),
            opt_as_str(&args.token_env),
            token_value,
        ) {
            Ok(parts) => parts,
            Err(error) => return Err(error),
        };
        Self::from_parts(args, base_path, exposure, token)
    }

    /// A browser attach with the given base path, exposure and token. The session id is
    /// judged; what else is asked for is taken as it is.
    pub fn from_parts(
        args: SessionAttachArgs,
        base_path: Option<BasePath>,
        exposure: WebExposure,
        token: AccessToken,
    ) -> (r: Result<Self, CliError>)
        ensures
            match r {
                Ok(config) => {
                    &&& crate::protocol::valid_session_name(args.session_id@)
                    &&& config.session_id@ == args.session_id@
                    &&& config.backend == args.backend
                    &&& config.host == args.host
                    &&& config.port == args.port
                    &&& config.open == args.open
                    &&& config.presentation.font_size == args.font_size
                    &&& config.presentation.theme == args.theme.presentation()
                    &&& config.exposure == exposure
                    &&& config.token == token
                    &&& config.base_path == base_path
                },
                Err(error) => {
                    &&& !crate::protocol::valid_session_name(args.session_id@)
                    &&& error == CliError::SessionId
                },
            },
    {
        let session_id = match SessionName::new(args.session_id.as_str()) {
            Ok(session_id) => session_id,
            Err(_) => return Err(CliError::SessionId),
        };
        Ok(
            ValidatedSessionAttachConfig {
                session_id,
                backend: args.backend,
                host: args.host,
                port: args.port,
                open: args.open,
                presentation: PresentationSettings {
                    font_size: args.font_size,
                    theme: args.theme.to_presentation(),
                },
                exposure,
                token,
                base_path,
            },
        )
    }
}

/// Only public mode lets other machines in: a local attach binds to this machine.
pub proof fn law_local_attach_binds_to_loopback(
    expose_public: bool,
    host: IpAddr,
    public_url: Option<Seq<char>>,
    token_env: Option<Seq<char>>,
    token_value: Option<Seq<char>>,
)
    requires
        exposure_of(expose_public, host, public_url, token_env, token_value) is Ok,
    ensures
        !host.loopback() ==> expose_public,
        expose_public ==> (public_url matches Some(text) && public_url_of(text) is Some),
        expose_public ==> (token_value matches Some(value) && crate::protocol::token_bytes(value)
            is Some),
{
}

/// What is wrong with a text that is at most `max_bytes` long.
pub open spec fn text_error(text: Seq<char>, max_bytes: usize, field: TextField) -> Option<
    CliError,
> {
    if crate::text::byte_len(text) > max_bytes {
        Some(CliError::TextTooLong { field, max_bytes })
    } else if text.contains('\0') {
        Some(CliError::TextHasNul(field))
    } else {
        None
    }
}

/// Validates a text.
pub fn validate_local_text(text: &str, max_bytes: usize, field: TextField) -> (r: Result<
    (),
    CliError,
>)
    ensures
        match r {
            Ok(_) => text_error(text@, max_bytes, field) is None,
            Err(error) => text_error(text@, max_bytes, field) == Some(error),
        },
{
    if text.as_bytes().len() > max_bytes {
        return Err(CliError::TextTooLong { field, max_bytes });
    }
    if crate::text::contains_char(text, '\0') {
        return Err(CliError::TextHasNul(field));
    }
    Ok(())
}

/// What is wrong with a text to wait for.
pub open spec fn wait_text_error(text: Seq<char>, field: TextField) -> Option<CliError> {
    if text.len() == 0 {
        Some(CliError::TextEmpty(field))
    } else {
        text_error(text, crate::web::SEMANTIC_WAIT_TEXT_MAX_BYTES, field)
    }
}

/// Validates a text to wait for.
pub fn validate_wait_text(text: &str, field: TextField) -> (r: Result<(), CliError>)
    ensures
        match r {
            Ok(_) => wait_text_error(text@, field) is None,
            Err(error) => wait_text_error(text@, field) == Some(error),
        },
{
    if text.is_empty() {
        return Err(CliError::TextEmpty(field));
    }
    validate_local_text(text, crate::web::SEMANTIC_WAIT_TEXT_MAX_BYTES, field)
}

/// The command line that command words give: the words with spaces between them.
pub open spec fn exec_line(words: Seq<Seq<char>>) -> Result<Seq<char>, CliError> {
    let line = crate::text::joined(words, " "@);
    match text_error(line, crate::web::SEMANTIC_TEXT_MAX_BYTES, TextField::Command) {
        Some(error) => Err(error),
        None => if line.contains('\r') || line.contains('\n') {
            Err(CliError::CommandLineBreak)
        } else {
            Ok(line)
        },
    }
}

/// Returns the command line that command words give.
pub fn local_exec_command(command: &Vec<String>) -> (r: Result<String, CliError>)
    ensures
        match r {
            Ok(line) => exec_line(crate::text::texts(command@)) == Ok::<Seq<char>, CliError>(line@),
            Err(error) => exec_line(crate::text::texts(command@)) == Err::<Seq<char>, CliError>(
                error,
            ),
        },
{
    let line = crate::text::join(command, " ");
    match validate_local_text(
        line.as_str(),
        crate::web::SEMANTIC_TEXT_MAX_BYTES,
        TextField::Command,
    ) {
        Ok(_) => {},
        Err(error) => return Err(error),
    }
    if crate::text::contains_char(line.as_str(), '\r') || crate::text::contains_char(
        line.as_str(),
        '\n',
    ) {
        return Err(CliError::CommandLineBreak);
    }
    Ok(line)
}

/// The backend token for a key.
pub open spec fn local_key(key: Seq<char>) -> Result<Seq<char>, CliError> {
    if key.len() == 0 || crate::text::byte_len(key) > crate::web::SEMANTIC_KEY_MAX_BYTES {
        Err(CliError::KeyLength)
    } else {
        match crate::web::key_token(key) {
            Some(token) => Ok(token),
            None => Err(CliError::KeyUnsupported),
        }
    }
}

/// Returns the backend token for a key.
pub fn local_semantic_key_token(key: &str) -> (r: Result<String, CliError>)
    ensures
        match r {
            Ok(token) => local_key(key@) == Ok::<Seq<char>, CliError>(token@),
            Err(error) => local_key(key@) == Err::<Seq<char>, CliError>(error),
        },
{
    if key.is_empty() || key.as_bytes().len() > crate::web::SEMANTIC_KEY_MAX_BYTES {
        return Err(CliError::KeyLength);
    }
    match crate::web::semantic_key_token(key) {
        Ok(token) => Ok(token),
        Err(_) => Err(CliError::KeyUnsupported),
    }
}

/// The amount to scroll by that is asked for.
pub open spec fn scroll_amount(amount: u16) -> Result<u16, CliError> {
    if 1 <= amount <= crate::web::SEMANTIC_SCROLL_MAX_AMOUNT {
        Ok(amount)
    } else {
        Err(CliError::ScrollAmount)
    }
}

/// Validates a scroll amount.
pub fn validate_local_scroll_amount(amount: u16) -> (r: Result<u16, CliError>)
    ensures
        r == scroll_amount(amount),
{
    if amount == 0 || amount > crate::web::SEMANTIC_SCROLL_MAX_AMOUNT {
        return Err(CliError::ScrollAmount);
    }
    Ok(amount)
}

/// How long to wait for a text.
pub fn semantic_wait_timeout(value: Option<u64>) -> (r: Result<Duration, CliError>)
    ensures
        match r {
            Ok(timeout) => crate::web::wait_millis(value) matches Some(millis) && timeout@ == millis
                * 1_000_000,
            Err(error) => crate::web::wait_millis(value) is None && error == CliError::WaitTimeout,
        },
{
    match crate::web::semantic_wait_timeout(value) {
        Ok(timeout) => Ok(timeout),
        Err(_) => Err(CliError::WaitTimeout),
    }
}

/// What is wrong with a terminal size that two texts write, as values.
pub enum SizeFailure {
    /// Columns, with the text.
    Columns(Seq<char>),
    /// Rows, with the text.
    Rows(Seq<char>),
    /// The size.
    Size,
}

/// What is wrong with a terminal size that two texts write.
#[derive(Debug, Clone, PartialEq, Eq)]
pub enum TerminalSizeError {
    /// The text of the columns is no number of columns.
    Columns(String),
    /// The text of the rows is no number of rows.
    Rows(String),
    /// No terminal has this size.
    Size,
}

impl View for TerminalSizeError {
    type V = SizeFailure;

    open spec fn view(&self) -> SizeFailure {
        match self {
            TerminalSizeError::Columns(value) => SizeFailure::Columns(value@),
            TerminalSizeError::Rows(value) => SizeFailure::Rows(value@),
            TerminalSizeError::Size => SizeFailure::Size,
        }
    }
}

impl TerminalSizeError {
    /// The text of the failure. A text that is no number stands in it between quotes.
    pub open spec fn text(self) -> Seq<char> {
        match self@ {
            SizeFailure::Columns(value) => "invalid terminal columns value "@
                + crate::text::quoted_text(value),
            SizeFailure::Rows(value) => "invalid terminal rows value "@ + crate::text::quoted_text(
                value,
            ),
            SizeFailure::Size => "terminal size is invalid"@,
        }
    }

    /// Returns the text of the failure.
    #[must_use]
    pub fn message(&self) -> (r: String)
        ensures
            r@ == self.text(),
    {
        match self {
            TerminalSizeError::Columns(value) => "invalid terminal columns value ".to_owned().concat(
                crate::text::quoted(value.as_str()).as_str(),
            ),
            TerminalSizeError::Rows(value) => "invalid terminal rows value ".to_owned().concat(
                crate::text::quoted(value.as_str()).as_str(),
            ),
            TerminalSizeError::Size => "terminal size is invalid".to_owned(),
        }
    }
}

/// The terminal size that two texts write.
pub open spec fn size_of_values(cols: Seq<char>, rows: Seq<char>) -> Result<
    (u16, u16),
    SizeFailure,
> {
    match crate::text::number(cols, 10, u16::MAX as nat) {
        None => Err(SizeFailure::Columns(cols)),
        Some(width) => match crate::text::number(rows, 10, u16::MAX as nat) {
            None => Err(SizeFailure::Rows(rows)),
            Some(height) => if crate::protocol::valid_terminal_size(width as u16, height as u16) {
                Ok((width as u16, height as u16))
            } else {
                Err(SizeFailure::Size)
            },
        },
    }
}

/// Reads a terminal size from two texts.
pub fn terminal_size_from_values(cols: &str, rows: &str) -> (r: Result<
    TerminalSize,
    TerminalSizeError,
>)
    ensures
        match r {
            Ok(size) => size_of_values(cols@, rows@) == Ok::<(u16, u16), SizeFailure>(size@),
            Err(error) => size_of_values(cols@, rows@) == Err::<(u16, u16), SizeFailure>(error@),
        },
{
    let width = match crate::text::parse_u16(cols) {
        Some(width) => width,
        None => return Err(TerminalSizeError::Columns(cols.to_owned())),
    };
    let height = match crate::text::parse_u16(rows) {
        Some(height) => height,
        None => return Err(TerminalSizeError::Rows(rows.to_owned())),
    };
    match TerminalSize::new(width, height) {
        Ok(size) => Ok(size),
        Err(_) => Err(TerminalSizeError::Size),
    }
}

/// The size of a new session: that of the terminal, else what the environment
/// says, else 80 columns and 24 rows. What is no valid size is passed over.
pub open spec fn initial_size(
    tty: Option<(u16, u16)>,
    cols: Option<Seq<char>>,
    rows: Option<Seq<char>>,
) -> (u16, u16) {
    match tty {
        Some(size) if crate::protocol::valid_terminal_size(size.0, size.1) => size,
        _ => match (cols, rows) {
            (Some(cols), Some(rows)) => match size_of_values(cols, rows) {
                Ok(size) => size,
                Err(_) => (80, 24),
            },
            _ => (80, 24),
        },
    }
}

/// Returns the size of a new session. `tty` is the size of the terminal, `cols`
/// and `rows` are what `COLUMNS` and `LINES` hold.
#[must_use]
pub fn initial_terminal_size(
    tty: Option<(u16, u16)>,
    cols: Option<&str>,
    rows: Option<&str>,
) -> (r: TerminalSize)
    ensures
        r@ == initial_size(tty, opt_str(cols), opt_str(rows)),
{
    match tty {
        Some((cols, rows)) => match TerminalSize::new(cols, rows) {
            Ok(size) => return size,
            Err(_) => {},
        },
        None => {},
    }
    match (cols, rows) {
        (Some(cols), Some(rows)) => match terminal_size_from_values(cols, rows) {
            Ok(size) => return size,
            Err(_) => {},
        },
        _ => {},
    }
    TerminalSize::new(80, 24).unwrap()
}

/// Returns the command that a tmux session starts with.
#[must_use]
pub fn tmux_session_command(command: Option<Vec<u8>>, args: Vec<Vec<u8>>) -> (r: Option<
    TmuxSessionCommand,
>)
    ensures
        match command {
            Some(path) => r matches Some(command) && command.executable_bytes() == path@
                && command.arg_list() == args@,
            None => r is None,
        },
{
    match command {
        Some(path) => Some(TmuxSessionCommand::new(path, args)),
        None => None,
    }
}

/// Returns the command that an rmux session starts with.
pub fn rmux_session_command(command: Option<Vec<u8>>, args: Vec<Vec<u8>>) -> (r: Result<
    Option<RmuxSessionCommand>,
    BackendError,
>)
    ensures
        match command {
            Some(path) => match r {
                Ok(command) => command matches Some(command) && crate::rmux_backend::command_argv(
                    path@,
                    args@,
                ) == Ok::<Seq<Seq<char>>, FailureView>(command@),
                Err(error) => crate::rmux_backend::command_argv(path@, args@) == Err::<
                    Seq<Seq<char>>,
                    FailureView,
                >(error@),
            },
            None => r matches Ok(none) && none is None,
        },
{
    match command {
        Some(path) => match RmuxSessionCommand::try_new(path, args) {
            Ok(command) => Ok(Some(command)),
            Err(error) => Err(error),
        },
        None => Ok(None),
    }
}

/// Scroll direction on the command line.
#[derive(Debug, Clone, Copy, PartialEq, Eq, Structural)]
pub enum CliScrollDirection {
    /// Towards older lines.
    Up,
    /// Towards newer lines.
    Down,
}

impl CliScrollDirection {
    /// Name of the direction in a request.
    pub open spec fn text(self) -> Seq<char> {
        match self {
            CliScrollDirection::Up => "up"@,
            CliScrollDirection::Down => "down"@,
        }
    }

    /// The direction of the backend.
    pub open spec fn direction(self) -> BackendScrollDirection {
        match self {
            CliScrollDirection::Up => BackendScrollDirection::Up,
            CliScrollDirection::Down => BackendScrollDirection::Down,
        }
    }

    /// Returns the name of the direction in a request.
    #[must_use]
    pub fn as_json(self) -> (r: &'static str)
        ensures
            r@ == self.text(),
    {
        match self {
            CliScrollDirection::Up => "up",
            CliScrollDirection::Down => "down",
        }
    }

    /// Returns the direction of the backend.
    #[must_use]
    pub fn as_backend(self) -> (r: BackendScrollDirection)
        ensures
            r == self.direction(),
    {
        match self {
            CliScrollDirection::Up => BackendScrollDirection::Up,
            CliScrollDirection::Down => BackendScrollDirection::Down,
        }
    }
}

/// Returns the details of a tmux session.
#[must_use]
pub fn tmux_inspect_details(record: CliSessionRecord, info: &TmuxSessionInfo) -> (r:
    CliSessionInspectDetails)
    ensures
        r.record == record,
        r.window@ == info@.window,
        r.pane@ == info@.pane,
        r.size@ == info@.size,
{
    CliSessionInspectDetails {
        record,
        window: info.window().as_str().to_owned(),
        pane: info.pane().as_str().to_owned(),
        size: info.size(),
    }
}

/// Returns the details of an rmux session.
#[must_use]
pub fn rmux_inspect_details(record: CliSessionRecord, info: &RmuxSessionInfo) -> (r:
    CliSessionInspectDetails)
    ensures
        r.record == record,
        r.window@ == info@.window,
        r.pane@ == info@.pane,
        r.size@ == info@.size,
{
    CliSessionInspectDetails {
        record,
        window: info.window().as_str().to_owned(),
        pane: info.pane().as_str().to_owned(),
        size: info.size(),
    }
}

/// The name of a token variable takes 1 to 128 bytes, starts with a capital letter or an
/// underscore, and holds those and digits alone.
pub proof fn law_token_variables_are_in_capitals(name: Seq<char>, c: char)
    ensures
        token_env_error(seq![]) == Some(CliError::TokenEnvEmpty),
        token_env_error(name) is None ==> 1 <= name.len() <= 128,
        token_env_error(seq![c]) is None <==> 'A' <= c <= 'Z' || c == '_',
        token_env_error(name) is None && name.len() < 128 ==> {
            &&& token_env_error(name.push(c)) is None <==> 'A' <= c <= 'Z' || '0' <= c <= '9' || c
                == '_'
        },
{
    let longer = name.push(c);
    let single = seq![c];
    crate::text::lemma_byte_len(name);
    crate::text::lemma_byte_len(single);
    assert(single[0] == c);
    if is_env_char(c) && !('0' <= c <= '9') {
        assert forall|i: int| 0 <= i < single.len() implies is_env_char(#[trigger] single[i]) by {}
        assert(crate::text::byte_len(single) <= 4);
    }
    if token_env_error(name) is None && name.len() < 128 {
        assert(longer[0] == name[0]);
        assert(longer[name.len() as int] == c);
        if is_env_char(c) {
            assert forall|i: int| 0 <= i < longer.len() implies is_env_char(#[trigger] longer[i]) by {
                if i < name.len() {
                    assert(is_env_char(name[i]));
                }
            }
            lemma_variables_are_ascii(longer);
        } else {
            assert(!is_env_char(longer[name.len() as int]));
        }
    }
}

proof fn lemma_variables_are_ascii(name: Seq<char>)
    requires
        forall|i: int| 0 <= i < name.len() ==> is_env_char(#[trigger] name[i]),
    ensures
        crate::text::byte_len(name) == name.len(),
{
    assert forall|i: int| 0 <= i < name.len() implies '\0' <= #[trigger] name[i] <= '\u{7f}' by {
        assert(is_env_char(name[i]));
    }
    vstd::utf8::is_ascii_chars_encode_utf8(name);
}

/// Local mode serves this machine and takes neither a public URL nor a token variable; public
/// mode takes both, and serves with the token that the variable holds.
pub proof fn law_exposure_is_what_is_asked_for(
    host: IpAddr,
    url: Seq<char>,
    name: Seq<char>,
    token: Seq<u8>,
    held: Option<Seq<char>>,
)
    requires
        token.len() == 32,
    ensures
        exposure_of(false, host, None, None, held) == (if host.loopback() {
            Ok::<ExposureView, CliError>(ExposureView::Local)
        } else {
            Err(CliError::HostNotLoopback)
        }),
        host.loopback() ==> {
            &&& exposure_of(false, host, Some(url), None, held) == Err::<ExposureView, CliError>(
                CliError::PublicUrlInLocalMode,
            )
            &&& exposure_of(false, host, None, Some(name), held) == Err::<ExposureView, CliError>(
                CliError::TokenEnvInLocalMode,
            )
        },
        exposure_of(true, host, None, Some(name), held) == Err::<ExposureView, CliError>(
            CliError::PublicUrlMissing,
        ),
        public_url_of(url) is None ==> exposure_of(true, host, Some(url), Some(name), held) == Err::<
            ExposureView,
            CliError,
        >(CliError::PublicUrl),
        public_url_of(url) matches Some(public) ==> {
            &&& exposure_of(true, host, Some(url), None, held) == Err::<ExposureView, CliError>(
                CliError::TokenEnvMissing,
            )
            &&& token_env_error(name) matches Some(error) ==> exposure_of(
                true,
                host,
                Some(url),
                Some(name),
                held,
            ) == Err::<ExposureView, CliError>(error)
            &&& token_env_error(name) is None ==> {
                &&& exposure_of(true, host, Some(url), Some(name), None) == Err::<
                    ExposureView,
                    CliError,
                >(CliError::TokenUnset)
                &&& exposure_of(
                    true,
                    host,
                    Some(url),
                    Some(name),
                    Some(crate::protocol::hex_text(token)),
                ) == Ok::<ExposureView, CliError>(
                    ExposureView::Public { public_url: public, token },
                )
            }
        },
{
    crate::protocol::law_token_round_trip(token);
}

/// A browser attach that is granted is the one that was asked for: its session, backend,
/// address and port, font size, theme and base path, with a token of 32 bytes.
pub proof fn law_attach_is_what_was_asked_for(
    args: SessionAttachArgs,
    token_value: Option<Seq<char>>,
    r: Result<ValidatedSessionAttachConfig, CliError>,
)
    requires
        attach_outcome(args, token_value, r),
    ensures
        r matches Ok(config) ==> {
            &&& config.session_id@ == args.session_id@
            &&& config.backend == args.backend
            &&& config.host == args.host
            &&& config.port == args.port
            &&& config.open == args.open
            &&& 12 <= config.presentation.font_size <= 96
            &&& config.presentation.font_size == args.font_size
            &&& args.theme is Light <==> config.presentation.theme is Light
            &&& config.exposure is Public <==> args.expose_public
            &&& config.base_path is Some <==> args.base_path is Some
            &&& config.base_path matches Some(path) ==> args.base_path matches Some(text)
                && path@ == text@
            &&& config.token@.len() == 32
        },
        args.font_size < 12 || args.font_size > 96 ==> r == Err::<
            ValidatedSessionAttachConfig,
            CliError,
        >(CliError::FontSize),
        12 <= args.font_size <= 96 && (args.base_path matches Some(path)
            && !crate::security::valid_base_path(path@)) ==> r == Err::<
            ValidatedSessionAttachConfig,
            CliError,
        >(CliError::BasePath),
        r is Err && args.presentation_error() is None && args.exposure(token_value) is Ok
            && crate::protocol::valid_session_name(args.session_id@) ==> r == Err::<
            ValidatedSessionAttachConfig,
            CliError,
        >(CliError::TokenGeneration) && !args.expose_public,
{
}

/// A text may take as many bytes as allowed and must hold no NUL; one to wait for takes at
/// most 4096 bytes and is not empty.
pub proof fn law_texts_are_bounded(text: Seq<char>, max_bytes: usize, field: TextField)
    ensures
        text_error(text, max_bytes, field) == (if vstd::utf8::encode_utf8(text).len()
            > max_bytes {
            Some(CliError::TextTooLong { field, max_bytes })
        } else if text.contains('\0') {
            Some(CliError::TextHasNul(field))
        } else {
            None
        }),
        wait_text_error(text, field) is None <==> 0 < vstd::utf8::encode_utf8(text).len() <= 4096
            && !text.contains('\0'),
        text.len() == 0 ==> wait_text_error(text, field) == Some(CliError::TextEmpty(field)),
{
    crate::text::lemma_byte_len(text);
}

/// The words of a command are joined by blanks into one line, of at most 4096 bytes; it is
/// run as the semantic API would run it.
pub proof fn law_command_words_make_a_line(words: Seq<Seq<char>>, word: Seq<char>)
    ensures
        exec_line(words) matches Ok(line) ==> line == crate::text::joined(words, seq![' '])
            && crate::web::runnable_command(line),
        exec_line(words) is Err ==> !crate::web::runnable_command(
            crate::text::joined(words, seq![' ']),
        ),
        exec_line(seq![word]) matches Ok(line) ==> line == word,
{
    reveal_strlit(" ");
    assert(" "@ =~= seq![' ']);
    crate::text::law_parts_are_joined(words, word, seq![' ']);
}

/// A key is pressed as the semantic API would press it, where it takes 1 to 32 bytes.
pub proof fn law_local_keys_are_semantic_keys(key: Seq<char>)
    ensures
        local_key(key) matches Ok(token) ==> crate::web::key_token(key) == Some(token) && 1
            <= vstd::utf8::encode_utf8(key).len() <= 32,
        key.len() == 0 || vstd::utf8::encode_utf8(key).len() > 32 ==> local_key(key) == Err::<
            Seq<char>,
            CliError,
        >(CliError::KeyLength),
        1 <= vstd::utf8::encode_utf8(key).len() <= 32 && crate::web::key_token(key) is None
            ==> local_key(key) == Err::<Seq<char>, CliError>(CliError::KeyUnsupported),
{
    crate::text::lemma_byte_len(key);
}

/// One to a hundred lines are scrolled at a time, up towards older lines and down towards
/// newer ones, by the same words on the command line and in a request.
pub proof fn law_scrolling_is_bounded(amount: u16, direction: CliScrollDirection)
    ensures
        scroll_amount(amount) == (if 1 <= amount <= 100 {
            Ok::<u16, CliError>(amount)
        } else {
            Err(CliError::ScrollAmount)
        }),
        direction is Up <==> direction.direction() is Up,
        direction is Up <==> direction.text() == "up"@,
        direction is Down <==> direction.text() == "down"@,
{
    reveal_strlit("up");
    reveal_strlit("down");
    assert("up"@.len() == 2 && "down"@.len() == 4);
}

/// A size that was written is read back, columns first; what is wrong is named.
pub proof fn law_written_size_is_read_back(cols: u16, rows: u16, text: Seq<char>)
    ensures
        ({
            let width = crate::text::decimal_text(cols as nat);
            let height = crate::text::decimal_text(rows as nat);
            &&& size_of_values(width, height) == (if 20 <= cols <= 300 && 5 <= rows <= 120 {
                Ok::<(u16, u16), SizeFailure>((cols, rows))
            } else {
                Err(SizeFailure::Size)
            })
            &&& crate::text::number(text, 10, 65535) is None ==> {
                &&& size_of_values(text, height) == Err::<(u16, u16), SizeFailure>(
                    SizeFailure::Columns(text),
                )
                &&& size_of_values(width, text) == Err::<(u16, u16), SizeFailure>(
                    SizeFailure::Rows(text),
                )
            }
        }),
{
    crate::text::law_decimal_round_trip(cols as nat, u16::MAX as nat);
    crate::text::law_decimal_round_trip(rows as nat, u16::MAX as nat);
}

/// A new session has the size of the terminal where that can be had; else the size that the
/// environment tells, where it tells one; else 80 columns and 24 rows.
pub proof fn law_new_session_has_the_size_of_the_terminal(
    tty: (u16, u16),
    cols: Option<Seq<char>>,
    rows: Option<Seq<char>>,
)
    ensures
        20 <= tty.0 <= 300 && 5 <= tty.1 <= 120 ==> initial_size(Some(tty), cols, rows) == tty,
        !(20 <= tty.0 <= 300 && 5 <= tty.1 <= 120) ==> initial_size(Some(tty), cols, rows)
            == initial_size(None, cols, rows),
        cols is Some && rows is Some ==> (size_of_values(cols->0, rows->0) matches Ok(size)
            ==> initial_size(None, cols, rows) == size),
        cols is None || rows is None || size_of_values(cols->0, rows->0) is Err ==> initial_size(
            None,
            cols,
            rows,
        ) == (80u16, 24u16),
{
}

/// Each failure of a command line is told in its own words, and names the option or the
/// text that is wrong and the limit that it breaks.
pub proof fn law_command_line_failures_have_their_words(error: CliError)
    ensures
        error matches CliError::Name(reason) ==> error.text() == reason.text(),
        error matches CliError::TextTooLong { field, max_bytes } ==> error.text()
            == field.text() + " must be at most "@ + crate::text::decimal_text(max_bytes as nat)
            + " bytes"@,
        error matches CliError::TextHasNul(field) ==> error.text()
            == field.text() + " must not contain NUL bytes"@,
        error matches CliError::TextEmpty(field) ==> error.text()
            == field.text() + " must not be empty"@,
        error is CommandArgsWithoutCommand ==> error.text() == "--command-arg requires --command"@,
        error is SessionId ==> error.text() == "invalid session id"@,
        error is SessionName ==> error.text() == "invalid session name"@,
        error is FontSize ==> error.text() == "font size must be in 12..=96"@,
        error is RmuxCommand ==> error.text() == "invalid rmux command argv"@,
        error is BasePath ==> error.text() == "invalid --base-path"@,
        error is PublicUrlMissing ==> error.text()
            == "--public-url is required with --expose-public"@,
        error is PublicUrl ==> error.text() == "invalid --public-url for public exposure"@,
        error is TokenEnvMissing ==> error.text()
            == "--token-env is required with --expose-public"@,
        error is TokenEnvEmpty ==> error.text() == "--token-env must not be empty"@,
        error is TokenEnvTooLong ==> error.text() == "--token-env must be at most 128 bytes"@,
        error is TokenEnvStart ==> error.text() == "--token-env must start with A-Z or _"@,
        error is TokenEnvCharacters ==> error.text()
            == "--token-env must contain only A-Z, 0-9, and _"@,
        error is TokenUnset ==> error.text()
            == "failed to read access token from the variable of --token-env"@,
        error is TokenValue ==> error.text()
            == "invalid access token in the variable of --token-env"@,
        error is HostNotLoopback ==> error.text()
            == "browser terminal bind host must be loopback unless --expose-public is set"@,
        error is PublicUrlInLocalMode ==> error.text() == "--public-url requires --expose-public"@,
        error is TokenEnvInLocalMode ==> error.text() == "--token-env requires --expose-public"@,
        error is TokenGeneration ==> error.text() == "failed to generate browser access token"@,
        error is CommandLineBreak ==> error.text() == "command must not contain line breaks"@,
        error is KeyLength ==> error.text() == "key must be non-empty and at most 32 bytes"@,
        error is KeyUnsupported ==> error.text() == "unsupported semantic key token"@,
        error is ScrollAmount ==> error.text() == "amount must be in 1..=100"@,
        error is WaitTimeout ==> error.text() == "wait timeout must be in 1..=60000 milliseconds"@,
        error is TokenMissing ==> error.text() == "--token is required"@,
        error is Token ==> error.text() == "invalid --token"@,
        error is UrlMissing ==> error.text() == "--url is required"@,
        error is Url ==> error.text() == "invalid --url"@,
        error is UrlScheme ==> error.text()
            == "semantic API CLI currently supports http URLs only"@,
        error is UrlCredentials ==> error.text() == "--url must not contain credentials"@,
        error is UrlHost ==> error.text() == "--url must include a host"@,
        error is UrlFragment ==> error.text() == "--url must not contain a fragment"@,
        error is UrlTooLong ==> error.text() == "--url is too long"@,
{
}

/// Each text on the command line goes by its own name.
pub proof fn law_fields_have_their_words(field: TextField)
    ensures
        field is Text ==> field.text() == "text"@,
        field is Command ==> field.text() == "command"@,
        field is WaitFor ==> field.text() == "wait-for"@,
{
}

/// A token that cannot be used is told with the variable that should hold it; every other
/// failure to attach is told as it is anywhere else.
pub proof fn law_token_failures_name_their_variable(error: CliError, variable: Seq<char>)
    ensures
        error is TokenUnset ==> error.attach_text(Some(variable))
            == "failed to read access token from $"@ + variable,
        error is TokenValue ==> error.attach_text(Some(variable)) == "invalid access token in $"@
            + variable,
        !(error is TokenUnset) && !(error is TokenValue) ==> error.attach_text(Some(variable))
            == error.text(),
        error.attach_text(None) == error.text(),
{
}

} // verus!
