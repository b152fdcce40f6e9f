//! Security validation for browser terminal server exposure modes.
//!
//! These types validate trust-boundary values before HTTP or WebSocket handlers
//! allocate runtime sessions.

use vstd::prelude::*;

use crate::net::{IpAddr, SocketAddr};
use crate::protocol::AccessToken;
use crate::web_url::{UrlParts, UrlView};

verus! {

/// Security validation failure.
#[derive(Debug, Clone, Copy, PartialEq, Eq, Structural)]
pub enum SecurityError {
    /// The host header did not match the selected loopback host and port.
    InvalidHost,
    /// The origin header was missing or mismatched.
    InvalidOrigin,
    /// The peer socket address was not loopback.
    InvalidPeer,
    /// The public base URL was invalid for internet exposure mode.
    InvalidPublicUrl,
    /// The supplied token did not match the server token.
    InvalidToken,
    /// The base path was not a single absolute path segment trail.
    InvalidBasePath,
}

impl SecurityError {
    /// The text that describes the failure, which tells a stranger nothing.
    pub open spec fn text(self) -> Seq<char> {
        match self {
            SecurityError::InvalidPublicUrl => "invalid public url"@,
            SecurityError::InvalidBasePath => "invalid base path"@,
            _ => "forbidden"@,
        }
    }

    /// Describes the failure.
    pub fn message(self) -> (r: &'static str)
        ensures
            r@ == self.text(),
    {
        match self {
            SecurityError::InvalidPublicUrl => "invalid public url",
            SecurityError::InvalidBasePath => "invalid base path",
            _ => "forbidden",
        }
    }
}

/// Selected loopback bind target that requests must match.
#[derive(Debug, Clone, Copy, PartialEq, Eq)]
pub struct LoopbackBind {
    host: IpAddr,
    port: u16,
}

/// The contents of a [`LoopbackBind`].
pub struct BindView {
    /// Address.
    pub host: IpAddr,
    /// Port.
    pub port: u16,
}

impl BindView {
    /// Tells whether `host` names the bind address: the address itself, with or
    /// without brackets, or `localhost` for a version 4 address.
    pub open spec fn names(self, host: Seq<char>) -> bool {
        match self.host {
            IpAddr::V4(octets) => host == crate::net::dotted(octets@) || crate::text::lowered(host)
                == crate::text::lowered("localhost"@),
            IpAddr::V6(_) => host == "[::1]"@ || host == "::1"@,
        }
    }
}

impl View for LoopbackBind {
    type V = BindView;

    closed spec fn view(&self) -> BindView {
        BindView { host: self.host, port: self.port }
    }
}

impl LoopbackBind {
    /// The bind address names the machine itself.
    #[verifier::type_invariant]
    pub open spec fn valid(&self) -> bool {
        self@.host.loopback()
    }

    /// Creates a loopback bind target.
    pub fn new(host: IpAddr, port: u16) -> (r: Result<Self, SecurityError>)
        ensures
            match r {
                Ok(bind) => host.loopback() && bind@ == (BindView { host, port }),
                Err(error) => !host.loopback() && error == SecurityError::InvalidPeer,
            },
    {
        if host.is_loopback() {
            Ok(LoopbackBind { host, port })
        } else {
            Err(SecurityError::InvalidPeer)
        }
    }

    /// Returns the selected port.
    #[must_use]
    pub fn port(self) -> (r: u16)
        ensures
            r == self@.port,
    {
        self.port
    }

    fn host_matches(self, host: &str) -> (r: bool)
        ensures
            r == self@.names(host@),
    {
        match self.host {
            IpAddr::V4(octets) => {
                let dotted = crate::net::dotted_text(&octets);
                crate::text::same_text(host, dotted.as_str()) || crate::text::eq_ignore_ascii_case(
                    host,
                    "localhost",
                )
            },
            IpAddr::V6(_) => crate::text::same_text(host, "[::1]") || crate::text::same_text(
                host,
                "::1",
            ),
        }
    }

    /// The address and port as they stand in a URL.
    #[must_use]
    pub fn authority(self) -> (r: String)
        ensures
            r@ == bind_authority(self@),
    {
        let mut out = match self.host {
            IpAddr::V4(octets) => crate::net::dotted_text(&octets),
            IpAddr::V6(_) => String::from_str("[::1]"),
        };
        out.append(":");
        out.append(crate::text::decimal(self.port as u64).as_str());
        out
    }
}

/// A loopback address and port as they stand in a URL.
pub open spec fn bind_authority(bind: BindView) -> Seq<char> {
    (match bind.host {
        IpAddr::V4(octets) => crate::net::dotted(octets@),
        IpAddr::V6(_) => "[::1]"@,
    }) + ":"@ + crate::text::decimal_text(bind.port as nat)
}

/// The contents of a [`PublicBaseUrl`].
pub struct PublicUrlView {
    /// The URL in its normal form.
    pub text: Seq<char>,
    /// Host, in lower case.
    pub host: Seq<char>,
    /// Port.
    pub port: u16,
}

/// The public base URL that the parts of a URL give: an `https` URL with a host
/// and nothing but the root path behind it.
pub open spec fn public_base(url: UrlView) -> Option<PublicUrlView> {
    if url.scheme == "https"@ && url.username.len() == 0 && url.password is None && url.query
        is None && url.fragment is None && url.path == "/"@ {
        match (url.host, url.port) {
            (Some(host), Some(port)) => Some(
                PublicUrlView { text: url.text, host: crate::text::lowered(host), port },
            ),
            _ => None,
        }
    } else {
        None
    }
}

/// Browser-visible HTTPS base URL for public exposure mode.
#[derive(PartialEq, Eq)]
pub struct PublicBaseUrl {
    url: String,
    host: String,
    port: u16,
}

impl View for PublicBaseUrl {
    type V = PublicUrlView;

    closed spec fn view(&self) -> PublicUrlView {
        PublicUrlView { text: self.url@, host: self.host@, port: self.port }
    }
}

impl PublicBaseUrl {
    /// The URL is an `https` URL.
    #[verifier::type_invariant]
    closed spec fn valid(&self) -> bool {
        crate::web_url::is_https(self.url@)
    }

    /// Creates a validated public base URL.
    ///
    /// The URL is HTTPS, has a host, and has no credentials, query, fragment or
    /// path.
    pub fn parse(value: &str) -> (r: Result<Self, SecurityError>)
        ensures
            match r {
                Ok(url) => crate::web_url::parsed_url(value@) matches Some(parts) && public_base(
                    parts,
                ) == Some(url@),
                Err(error) => {
                    &&& error == SecurityError::InvalidPublicUrl
                    &&& crate::web_url::parsed_url(value@) matches Some(parts) ==> public_base(
                        parts,
                    ) is None
                },
            },
    {
        match crate::web_url::parse_url(value) {
            Some(parts) => match PublicBaseUrl::checked(&parts) {
                Some(checked) => {
                    Ok(PublicBaseUrl { url: parts.text, host: checked.0, port: checked.1 })
                },
                None => Err(SecurityError::InvalidPublicUrl),
            },
            None => Err(SecurityError::InvalidPublicUrl),
        }
    }

    /// The host, in lower case, and the port of a URL that can be a public base
    /// URL.
    pub fn checked(parts: &UrlParts) -> (r: Option<(String, u16)>)
        ensures
            match r {
                Some(checked) => public_base(parts@) == Some(
                    PublicUrlView { text: parts@.text, host: checked.0@, port: checked.1 },
                ),
                None => public_base(parts@) is None,
            },
    {
        if !crate::text::same_text(parts.scheme.as_str(), "https") {
            return None;
        }
        if !parts.username.as_str().is_empty() || parts.password.is_some() || parts.query.is_some()
            || parts.fragment.is_some() || !crate::text::same_text(parts.path.as_str(), "/") {
            return None;
        }
        match (&parts.host, parts.port) {
            (Some(host), Some(port)) => Some(
                (crate::text::to_ascii_lowercase(host.as_str()), port),
            ),
            _ => None,
        }
    }

    /// Returns the public URL as a string slice.
    #[must_use]
    pub fn as_str(&self) -> (r: &str)
        ensures
            r@ == self@.text,
    {
        self.url.as_str()
    }

    /// Describes the public URL by its text.
    #[must_use]
    pub fn debug_text(&self) -> (r: String)
        ensures
            r@ == "PublicBaseUrl { url: "@ + crate::text::quoted_text(self@.text) + ", .. }"@,
    {
        let mut text = "PublicBaseUrl { url: ".to_owned();
        text.append(crate::text::quoted(self.url.as_str()).as_str());
        text.append(", .. }");
        text
    }

    /// Returns the public URL with token and presentation settings.
    #[must_use]
    pub fn launch_url(&self, token: &AccessToken, font_size: u16, theme: &str) -> (r: String)
        requires
            crate::text::byte_len(self@.text) + 3 * crate::text::byte_len(theme@) + 8192
                <= u32::MAX,
        ensures
            r@ == public_launch_url(self@.text, token@, font_size, theme@, None),
    {
        self.launch_url_with_base_path(token, font_size, theme, None)
    }

    /// Returns the public URL with token and presentation settings, mounted
    /// under an optional reverse-proxy base path.
    #[must_use]
    pub fn launch_url_with_base_path(
        &self,
        token: &AccessToken,
        font_size: u16,
        theme: &str,
        base_path: Option<&BasePath>,
    ) -> (r: String)
        requires
            crate::text::byte_len(self@.text) + 3 * crate::text::byte_len(theme@) + 8192
                <= u32::MAX,
        ensures
            r@ == public_launch_url(
                self@.text,
                token@,
                font_size,
                theme@,
                match base_path {
                    Some(path) => Some(path@),
                    None => None,
                },
            ),
    {
        proof {
            use_type_invariant(self);
            reveal_strlit("token");
            reveal_strlit("fontSize");
            reveal_strlit("theme");
            crate::text::lemma_byte_len("token"@);
            crate::text::lemma_byte_len("fontSize"@);
            crate::text::lemma_byte_len("theme"@);
        }
        let token_text = token.to_url_token();
        let size_text = crate::text::decimal(font_size as u64);
        proof {
            crate::text::lemma_byte_len(token_text@);
            crate::text::lemma_decimal_len(font_size as nat);
            crate::text::lemma_byte_len(size_text@);
        }
        let mounted = match base_path {
            Some(prefix) => {
                proof {
                    use_type_invariant(prefix);
                    crate::text::lemma_byte_len(prefix@);
                    crate::web_url::lemma_path_room(prefix@);
                }
                crate::web_url::set_url_path(self.url.as_str(), prefix.as_str())
            },
            None => self.url.clone(),
        };
        let with_token = crate::web_url::append_url_pair(
            mounted.as_str(),
            "token",
            token_text.as_str(),
        );
        let with_size = crate::web_url::append_url_pair(
            with_token.as_str(),
            "fontSize",
            size_text.as_str(),
        );
        crate::web_url::append_url_pair(with_size.as_str(), "theme", theme)
    }

    fn host_matches(&self, host: &str) -> (r: bool)
        ensures
            r == (crate::text::lowered(host@) == crate::text::lowered(self@.host)),
    {
        crate::text::eq_ignore_ascii_case(host, self.host.as_str())
    }

    fn port_matches(&self, port: Option<u16>) -> (r: bool)
        ensures
            r == (port_or_https(port) == self@.port),
    {
        let port: u16 = match port {
            Some(port) => port,
            None => 443,
        };
        port == self.port
    }
}

/// A port, or that of HTTPS where there is none.
pub open spec fn port_or_https(port: Option<u16>) -> u16 {
    match port {
        Some(port) => port,
        None => 443,
    }
}

/// The public URL with the token and the presentation settings in its query,
/// and with `base_path` as its path where one is given.
pub open spec fn public_launch_url(
    text: Seq<char>,
    token: Seq<u8>,
    font_size: u16,
    theme: Seq<char>,
    base_path: Option<Seq<char>>,
) -> Seq<char> {
    let mounted = match base_path {
        Some(path) => crate::web_url::url_with_path(text, path),
        None => text,
    };
    let with_token = crate::web_url::url_with_pair(
        mounted,
        "token"@,
        crate::protocol::hex_text(token),
    );
    let with_size = crate::web_url::url_with_pair(
        with_token,
        "fontSize"@,
        crate::text::decimal_text(font_size as nat),
    );
    crate::web_url::url_with_pair(with_size, "theme"@, theme)
}

impl std::str::FromStr for PublicBaseUrl {
    type Err = SecurityError;

    fn from_str(value: &str) -> (r: Result<Self, SecurityError>)
        ensures
            match r {
                Ok(url) => crate::web_url::parsed_url(value@) matches Some(parts) && public_base(
                    parts,
                ) == Some(url@),
                Err(error) => {
                    &&& error == SecurityError::InvalidPublicUrl
                    &&& crate::web_url::parsed_url(value@) matches Some(parts) ==> public_base(
                        parts,
                    ) is None
                },
            },
    {
        PublicBaseUrl::parse(value)
    }
}

impl Clone for PublicBaseUrl {
    fn clone(&self) -> (r: Self)
        ensures
            r == *self,
    {
        proof {
            use_type_invariant(self);
        }
        PublicBaseUrl { url: self.url.clone(), host: self.host.clone(), port: self.port }
    }
}

/// Characters of a base path segment.
pub open spec fn is_segment_char(c: char) -> bool {
    ||| 'A' <= c <= 'Z'
    ||| 'a' <= c <= 'z'
    ||| '0' <= c <= '9'
    ||| c == '-'
    ||| c == '_'
    ||| c == '.'
    ||| c == '~'
}

/// Tells whether `s` is a segment of a base path: not empty, no dot segment,
/// and of unreserved characters.
pub open spec fn valid_segment(s: Seq<char>) -> bool {
    &&& s.len() > 0
    &&& s != "."@
    &&& s != ".."@
    &&& forall|i: int| 0 <= i < s.len() ==> is_segment_char(#[trigger] s[i])
}

/// Tells whether `s` is a base path: segments with a slash before, between and
/// after them.
pub open spec fn valid_base_path(s: Seq<char>) -> bool {
    &&& 2 < s.len() <= BASE_PATH_MAX_BYTES
    &&& s[0] == '/'
    &&& s.last() == '/'
    &&& forall|i: int|
        #![trigger crate::text::pieces(s.subrange(1, s.len() - 1), '/')[i]]
        0 <= i < crate::text::pieces(s.subrange(1, s.len() - 1), '/').len() ==> valid_segment(
            crate::text::pieces(s.subrange(1, s.len() - 1), '/')[i],
        )
}

/// Longest base path, in bytes.
pub const BASE_PATH_MAX_BYTES: usize = 256;

/// Validated reverse-proxy base path prefix.
///
/// Used when the server is mounted under a path prefix by an upstream reverse
/// proxy (e.g. `/p/<sessionId>/`). The stored value always starts and ends with
/// `/`, never contains a `..` segment, never contains empty segments, and only
/// uses RFC 3986 unreserved characters. The trailing slash is stripped for use as
/// a route prefix via [`Self::nest_prefix`].
#[derive(Debug, PartialEq, Eq)]
pub struct BasePath(String);

impl View for BasePath {
    type V = Seq<char>;

    closed spec fn view(&self) -> Seq<char> {
        self.0@
    }
}

impl BasePath {
    /// A base path holds a valid path.
    #[verifier::type_invariant]
    pub open spec fn valid(&self) -> bool {
        valid_base_path(self@)
    }

    /// Validates a base path string.
    pub fn parse(value: &str) -> (r: Result<Self, SecurityError>)
        ensures
            match r {
                Ok(path) => valid_base_path(value@) && path@ == value@,
                Err(error) => !valid_base_path(value@) && error == SecurityError::InvalidBasePath,
            },
    {
        let chars = crate::text::chars_of(value);
        if chars.len() <= 2 || chars.len() > BASE_PATH_MAX_BYTES {
            return Err(SecurityError::InvalidBasePath);
        }
        if chars[0] != '/' || chars[chars.len() - 1] != '/' {
            return Err(SecurityError::InvalidBasePath);
        }
        let inner = crate::text::string_of(&chars, 1, chars.len() - 1);
        let segments = crate::text::split(inner.as_str(), '/');
        let ghost parts = crate::text::pieces(inner@, '/');
        let mut i: usize = 0;
        while i < segments.len()
            invariant
                i <= segments@.len(),
                crate::text::texts(segments@) == parts,
                forall|k: int| 0 <= k < i ==> valid_segment(#[trigger] parts[k]),
                inner@ == value@.subrange(1, value@.len() - 1),
                parts == crate::text::pieces(inner@, '/'),
            decreases segments@.len() - i,
        {
            proof {
                assert(parts[i as int] == segments@[i as int]@);
            }
            if !is_valid_segment(segments[i].as_str()) {
                return Err(SecurityError::InvalidBasePath);
            }
            i += 1;
        }
        Ok(BasePath(value.to_owned()))
    }

    /// Returns the base path including the leading and trailing slashes.
    #[must_use]
    pub fn as_str(&self) -> (r: &str)
        ensures
            r@ == self@,
    {
        self.0.as_str()
    }

    /// Returns the base path with the trailing slash stripped, suitable for use
    /// as a route prefix.
    #[must_use]
    pub fn nest_prefix(&self) -> (r: String)
        ensures
            r@ == self@.drop_last(),
    {
        proof {
            use_type_invariant(self);
        }
        let chars = crate::text::chars_of(self.0.as_str());
        crate::text::string_of(&chars, 0, chars.len() - 1)
    }
}

fn is_valid_segment(segment: &str) -> (r: bool)
    ensures
        r == valid_segment(segment@),
{
    let chars = crate::text::chars_of(segment);
    if chars.len() == 0 || crate::text::same_text(segment, ".") || crate::text::same_text(
        segment,
        "..",
    ) {
        return false;
    }
    let mut i: usize = 0;
    while i < chars.len()
        invariant
            i <= chars@.len(),
            chars@ == segment@,
            forall|k: int| 0 <= k < i ==> is_segment_char(#[trigger] chars@[k]),
        decreases chars@.len() - i,
    {
        let c = chars[i];
        let accepted = ('A' <= c && c <= 'Z') || ('a' <= c && c <= 'z') || ('0' <= c && c <= '9')
            || c == '-' || c == '_' || c == '.' || c == '~';
        if !accepted {
            return false;
        }
        i += 1;
    }
    true
}

impl std::str::FromStr for BasePath {
    type Err = SecurityError;

    fn from_str(value: &str) -> (r: Result<Self, SecurityError>)
        ensures
            match r {
                Ok(path) => valid_base_path(value@) && path@ == value@,
                Err(error) => !valid_base_path(value@) && error == SecurityError::InvalidBasePath,
            },
    {
        BasePath::parse(value)
    }
}

impl Clone for BasePath {
    fn clone(&self) -> (r: Self)
        ensures
            r == *self,
    {
        proof {
            use_type_invariant(self);
        }
        BasePath(self.0.clone())
    }
}

/// Request exposure policy selected at server startup.
#[derive(Clone, PartialEq, Eq)]
pub enum ExposurePolicy {
    /// Local loopback-only service.
    Local(LoopbackBind),
    /// Public service behind an HTTPS ingress or reverse proxy.
    Public(PublicBaseUrl),
}

impl ExposurePolicy {
    /// Creates a local loopback policy.
    pub fn local(host: IpAddr, port: u16) -> (r: Result<Self, SecurityError>)
        ensures
            match r {
                Ok(policy) => {
                    &&& host.loopback()
                    &&& policy matches ExposurePolicy::Local(bind)
                    &&& bind@ == (BindView { host, port })
                },
                Err(error) => !host.loopback() && error == SecurityError::InvalidPeer,
            },
    {
        match LoopbackBind::new(host, port) {
            Ok(bind) => Ok(ExposurePolicy::Local(bind)),
            Err(error) => Err(error),
        }
    }
}

/// The port that `s` writes.
pub open spec fn port_number(s: Seq<char>) -> Option<u16> {
    match crate::text::number(s, 10, u16::MAX as nat) {
        Some(port) => Some(port as u16),
        None => None,
    }
}

/// The host and port of a Host header that must name both.
pub open spec fn host_and_port(s: Seq<char>) -> Option<(Seq<char>, u16)> {
    if s.len() == 0 || s.contains('/') {
        None
    } else if s[0] == '[' {
        let rest = s.drop_first();
        match crate::text::first_occurrence(rest, "]:"@) {
            Some(i) => match port_number(rest.skip(i + 2)) {
                Some(port) => Some((rest.take(i), port)),
                None => None,
            },
            None => None,
        }
    } else {
        let i = crate::text::last_where(s, crate::text::just(':'));
        if i < 0 {
            None
        } else {
            match port_number(s.skip(i + 1)) {
                Some(port) => Some((s.take(i), port)),
                None => None,
            }
        }
    }
}

/// The host and port of a Host header that may leave the port out.
pub open spec fn host_and_optional_port(s: Seq<char>) -> Option<(Seq<char>, Option<u16>)> {
    if s.len() == 0 || s.contains('/') {
        None
    } else if s[0] == '[' {
        let rest = s.drop_first();
        let i = crate::text::first_where(rest, crate::text::just(']'));
        let suffix = rest.skip(i + 1);
        if i == rest.len() {
            None
        } else if suffix.len() == 0 {
            Some((rest.take(i), None))
        } else if suffix[0] != ':' {
            None
        } else {
            match port_number(suffix.drop_first()) {
                Some(port) => Some((rest.take(i), Some(port))),
                None => None,
            }
        }
    } else {
        let i = crate::text::last_where(s, crate::text::just(':'));
        if i < 0 || s.take(i).contains(':') {
            Some((s, None))
        } else {
            match port_number(s.skip(i + 1)) {
                Some(port) => Some((s.take(i), Some(port))),
                None => None,
            }
        }
    }
}

fn split_host_port(value: &str) -> (r: Option<(String, u16)>)
    ensures
        match r {
            Some(parts) => host_and_port(value@) == Some((parts.0@, parts.1)),
            None => host_and_port(value@) is None,
        },
{
    if value.is_empty() || crate::text::contains_char(value, '/') {
        return None;
    }
    proof {
        reveal_strlit("]:");
    }
    let (host, port) = match crate::text::strip_char(value, '[') {
        Some(rest) => {
            match crate::text::split_once_at(rest.as_str(), "]:") {
                Some(parts) => parts,
                None => return None,
            }
        },
        None => match crate::text::rsplit_once(value, ':') {
            Some(parts) => parts,
            None => return None,
        },
    };
    match crate::text::parse_u16(port.as_str()) {
        Some(port) => Some((host, port)),
        None => None,
    }
}

fn split_host_optional_port(value: &str) -> (r: Option<(String, Option<u16>)>)
    ensures
        match r {
            Some(parts) => host_and_optional_port(value@) == Some((parts.0@, parts.1)),
            None => host_and_optional_port(value@) is None,
        },
{
    if value.is_empty() || crate::text::contains_char(value, '/') {
        return None;
    }
    match crate::text::strip_char(value, '[') {
        Some(rest) => {
            let (host, suffix) = match crate::text::split_once(rest.as_str(), ']') {
                Some(parts) => parts,
                None => return None,
            };
            if suffix.as_str().is_empty() {
                return Some((host, None));
            }
            match crate::text::strip_char(suffix.as_str(), ':') {
                Some(port) => match crate::text::parse_u16(port.as_str()) {
                    Some(port) => Some((host, Some(port))),
                    None => None,
                },
                None => None,
            }
        },
        None => match crate::text::rsplit_once(value, ':') {
            Some((host, port)) => {
                if crate::text::contains_char(host.as_str(), ':') {
                    return Some((value.to_owned(), None));
                }
                match crate::text::parse_u16(port.as_str()) {
                    Some(port) => Some((host, Some(port))),
                    None => None,
                }
            },
            None => Some((value.to_owned(), None)),
        },
    }
}

/// Tells whether a Host header names the loopback bind target.
pub open spec fn loopback_host(value: Seq<char>, bind: BindView) -> bool {
    host_and_port(value) matches Some(parts) && parts.1 == bind.port && bind.names(parts.0)
}

/// Tells whether a Host header names the public base URL.
pub open spec fn public_host(value: Seq<char>, url: PublicUrlView) -> bool {
    host_and_optional_port(value) matches Some(parts) && same_host(url, parts.0) && port_or_https(
        parts.1,
    ) == url.port
}

/// Tells whether `host` is the host of the public base URL, in whatever case.
pub open spec fn same_host(url: PublicUrlView, host: Seq<char>) -> bool {
    crate::text::lowered(host) == crate::text::lowered(url.host)
}

/// Tells whether a Host header is allowed by the exposure policy.
pub open spec fn allowed_host(value: Seq<char>, policy: ExposurePolicy) -> bool {
    match policy {
        ExposurePolicy::Local(bind) => loopback_host(value, bind@),
        ExposurePolicy::Public(url) => public_host(value, url@),
    }
}

/// Validated HTTP Host header.
#[derive(Debug, Clone, PartialEq, Eq)]
pub struct AllowedHost(String);

impl View for AllowedHost {
    type V = Seq<char>;

    closed spec fn view(&self) -> Seq<char> {
        self.0@
    }
}

impl AllowedHost {
    /// Validates a Host header against the selected bind target.
    pub fn validate(value: &str, bind: LoopbackBind) -> (r: Result<Self, SecurityError>)
        ensures
            match r {
                Ok(host) => loopback_host(value@, bind@) && host@ == value@,
                Err(error) => !loopback_host(value@, bind@) && error == SecurityError::InvalidHost,
            },
    {
        match split_host_port(value) {
            Some((host, port)) => {
                if port == bind.port() && bind.host_matches(host.as_str()) {
                    Ok(AllowedHost(value.to_owned()))
                } else {
                    Err(SecurityError::InvalidHost)
                }
            },
            None => Err(SecurityError::InvalidHost),
        }
    }

    /// Validates a Host header against the configured exposure policy.
    pub fn validate_for_policy(value: &str, policy: &ExposurePolicy) -> (r: Result<
        Self,
        SecurityError,
    >)
        ensures
            match r {
                Ok(host) => allowed_host(value@, *policy) && host@ == value@,
                Err(error) => !allowed_host(value@, *policy) && error
                    == SecurityError::InvalidHost,
            },
    {
        match policy {
            ExposurePolicy::Local(bind) => AllowedHost::validate(value, *bind),
            ExposurePolicy::Public(url) => match split_host_optional_port(value) {
                Some((host, port)) => {
                    if url.host_matches(host.as_str()) && url.port_matches(port) {
                        Ok(AllowedHost(value.to_owned()))
                    } else {
                        Err(SecurityError::InvalidHost)
                    }
                },
                None => Err(SecurityError::InvalidHost),
            },
        }
    }

    /// Returns the validated header value.
    #[must_use]
    pub fn as_str(&self) -> (r: &str)
        ensures
            r@ == self@,
    {
        self.0.as_str()
    }
}

/// Tells whether the parts of a URL are those of an origin with the given
/// scheme.
pub open spec fn is_origin(url: UrlView, scheme: Seq<char>) -> bool {
    &&& url.scheme == scheme
    &&& url.path == "/"@
    &&& url.query is None
    &&& url.fragment is None
    &&& url.host is Some
}

/// Tells whether the parts of a URL are the origin of the loopback bind target.
pub open spec fn loopback_origin(url: UrlView, bind: BindView) -> bool {
    &&& is_origin(url, "http"@)
    &&& url.port == Some(bind.port)
    &&& bind.names(url.host->0)
}

/// Tells whether the parts of a URL are the origin of the public base URL.
pub open spec fn public_origin(url: UrlView, public: PublicUrlView) -> bool {
    &&& is_origin(url, "https"@)
    &&& same_host(public, url.host->0)
    &&& port_or_https(url.port) == public.port
}

/// Tells whether the parts of a URL are an origin that the exposure policy
/// allows.
pub open spec fn allowed_origin(url: UrlView, policy: ExposurePolicy) -> bool {
    match policy {
        ExposurePolicy::Local(bind) => loopback_origin(url, bind@),
        ExposurePolicy::Public(public) => public_origin(url, public@),
    }
}

/// Tells whether an Origin header is allowed by the exposure policy.
pub open spec fn allowed_origin_text(value: Seq<char>, policy: ExposurePolicy) -> bool {
    crate::web_url::parsed_url(value) matches Some(url) && allowed_origin(url, policy)
}

/// Validated same-origin header.
#[derive(Debug, Clone, PartialEq, Eq)]
pub struct AllowedOrigin(String);

impl View for AllowedOrigin {
    type V = Seq<char>;

    closed spec fn view(&self) -> Seq<char> {
        self.0@
    }
}

impl AllowedOrigin {
    /// Validates an Origin header against the selected bind target.
    pub fn validate(value: &str, bind: LoopbackBind) -> (r: Result<Self, SecurityError>)
        ensures
            match r {
                Ok(origin) => allowed_origin_text(value@, ExposurePolicy::Local(bind)) && origin@
                    == value@,
                Err(error) => !allowed_origin_text(value@, ExposurePolicy::Local(bind)) && error
                    == SecurityError::InvalidOrigin,
            },
    {
        AllowedOrigin::validate_for_policy(value, &ExposurePolicy::Local(bind))
    }

    /// Validates an Origin header against the configured exposure policy.
    pub fn validate_for_policy(value: &str, policy: &ExposurePolicy) -> (r: Result<
        Self,
        SecurityError,
    >)
        ensures
            match r {
                Ok(origin) => allowed_origin_text(value@, *policy) && origin@ == value@,
                Err(error) => !allowed_origin_text(value@, *policy) && error
                    == SecurityError::InvalidOrigin,
            },
    {
        match crate::web_url::parse_url(value) {
            Some(origin) => {
                if AllowedOrigin::allows(&origin, policy) {
                    Ok(AllowedOrigin(value.to_owned()))
                } else {
                    Err(SecurityError::InvalidOrigin)
                }
            },
            None => Err(SecurityError::InvalidOrigin),
        }
    }

    /// Tells whether the parts of a URL are an origin that the exposure policy
    /// allows.
    pub fn allows(origin: &UrlParts, policy: &ExposurePolicy) -> (r: bool)
        ensures
            r == allowed_origin(origin@, *policy),
    {
        let scheme = match policy {
            ExposurePolicy::Local(_) => "http",
            ExposurePolicy::Public(_) => "https",
        };
        if !crate::text::same_text(origin.scheme.as_str(), scheme) {
            return false;
        }
        if !crate::text::same_text(origin.path.as_str(), "/") || origin.query.is_some()
            || origin.fragment.is_some() {
            return false;
        }
        let host = match &origin.host {
            Some(host) => host.as_str(),
            None => return false,
        };
        match policy {
            ExposurePolicy::Local(bind) => match origin.port {
                Some(port) => port == bind.port() && bind.host_matches(host),
                None => false,
            },
            ExposurePolicy::Public(url) => url.host_matches(host) && url.port_matches(origin.port),
        }
    }

    /// Returns the validated origin.
    #[must_use]
    pub fn as_str(&self) -> (r: &str)
        ensures
            r@ == self@,
    {
        self.0.as_str()
    }
}

/// Validated peer address.
#[derive(Debug, Clone, Copy, PartialEq, Eq)]
pub struct PeerAddr(SocketAddr);

impl View for PeerAddr {
    type V = SocketAddr;

    closed spec fn view(&self) -> SocketAddr {
        self.0
    }
}

impl PeerAddr {
    /// Validates that a socket peer is loopback.
    pub fn validate(value: SocketAddr) -> (r: Result<Self, SecurityError>)
        ensures
            match r {
                Ok(peer) => value.ip.loopback() && peer@ == value,
                Err(error) => !value.ip.loopback() && error == SecurityError::InvalidPeer,
            },
    {
        if value.ip.is_loopback() {
            Ok(PeerAddr(value))
        } else {
            Err(SecurityError::InvalidPeer)
        }
    }

    /// Returns the socket address.
    #[must_use]
    pub fn get(self) -> (r: SocketAddr)
        ensures
            r == self@,
    {
        self.0
    }
}

/// Tells whether a socket peer is allowed by the exposure policy.
pub open spec fn allowed_peer(peer: SocketAddr, policy: ExposurePolicy) -> bool {
    policy is Local ==> peer.ip.loopback()
}

/// Validates that a socket peer is allowed by the exposure policy.
pub fn validate_peer_for_policy(value: SocketAddr, policy: &ExposurePolicy) -> (r: Result<
    PeerAddr,
    SecurityError,
>)
    ensures
        match r {
            Ok(peer) => allowed_peer(value, *policy) && peer@ == value,
            Err(error) => !allowed_peer(value, *policy) && error == SecurityError::InvalidPeer,
        },
{
    match policy {
        ExposurePolicy::Local(_) => PeerAddr::validate(value),
        ExposurePolicy::Public(_) => Ok(PeerAddr(value)),
    }
}

/// Validates an access token without leaking token contents.
pub fn validate_access_token(expected: &AccessToken, supplied: &AccessToken) -> (r: Result<
    (),
    SecurityError,
>)
    ensures
        match r {
            Ok(_) => expected@ == supplied@,
            Err(error) => expected@ != supplied@ && error == SecurityError::InvalidToken,
        },
{
    if expected.constant_time_eq(supplied) {
        Ok(())
    } else {
        Err(SecurityError::InvalidToken)
    }
}

proof fn lemma_port_has_no_marks(port: u16)
    ensures
        ({
            let digits = crate::text::decimal_text(port as nat);
            &&& digits.len() > 0
            &&& !digits.contains(':')
            &&& !digits.contains('/')
            &&& !digits.contains(']')
            &&& port_number(digits) == Some(port)
        }),
{
    let digits = crate::text::decimal_text(port as nat);
    crate::text::lemma_decimal_is_a_field(port as nat);
    crate::text::law_decimal_round_trip(port as nat, u16::MAX as nat);
    assert forall|i: int| 0 <= i < digits.len() implies '0' <= #[trigger] digits[i] <= '9' by {
        crate::text::law_decimal_is_short(port as nat, i);
    }
}

proof fn lemma_last_colon(host: Seq<char>, digits: Seq<char>)
    requires
        !digits.contains(':'),
    ensures
        ({
            let s = host + seq![':'] + digits;
            let n = host.len() as int;
            &&& crate::text::last_where(s, crate::text::just(':')) == n
            &&& s.take(n) == host
            &&& s.skip(n + 1) == digits
        }),
{
    let s = host + seq![':'] + digits;
    let n = host.len() as int;
    assert forall|k: int| n < k < s.len() implies !crate::text::just(':')(#[trigger] s[k]) by {
        assert(s[k] == digits[k - n - 1]);
        assert(digits.contains(digits[k - n - 1]));
    }
    assert(s[n] == ':');
    crate::text::lemma_last_where(s, crate::text::just(':'), n);
    assert(s.take(n) =~= host);
    assert(s.skip(n + 1) =~= digits);
}

proof fn lemma_no_slash(a: Seq<char>, b: Seq<char>)
    requires
        !a.contains('/'),
        !b.contains('/'),
    ensures
        !(a + seq![':'] + b).contains('/'),
        !(seq!['['] + a + seq![']', ':'] + b).contains('/'),
        !(seq!['['] + a + seq![']']).contains('/'),
{
    let plain = a + seq![':'] + b;
    let bracketed = seq!['['] + a + seq![']', ':'] + b;
    let bare = seq!['['] + a + seq![']'];
    let n = a.len() as int;
    assert forall|k: int| 0 <= k < plain.len() implies plain[k] != '/' by {
        if k < n {
            assert(a.contains(a[k]));
        } else if k > n {
            assert(b.contains(b[k - n - 1]));
        }
    }
    assert forall|k: int| 0 <= k < bracketed.len() implies bracketed[k] != '/' by {
        if 1 <= k < n + 1 {
            assert(a.contains(a[k - 1]));
        } else if k > n + 2 {
            assert(b.contains(b[k - n - 3]));
        }
    }
    assert forall|k: int| 0 <= k < bare.len() implies bare[k] != '/' by {
        if 1 <= k < n + 1 {
            assert(a.contains(a[k - 1]));
        }
    }
}

/// A Host header names a host, and a port behind the last colon; a host in brackets may hold
/// colons of its own. A header with a slash in it names nothing.
pub proof fn law_host_header_names_host_and_port(host: Seq<char>, port: u16)
    ensures
        ({
            let digits = crate::text::decimal_text(port as nat);
            let plain = host + seq![':'] + digits;
            let bracketed = seq!['['] + host + seq![']', ':'] + digits;
            &&& !host.contains('/') && !(host.len() > 0 && host[0] == '[') ==> host_and_port(plain)
                == Some((host, port))
            &&& !host.contains('/') && !host.contains(']') ==> host_and_port(bracketed) == Some(
                (host, port),
            )
            &&& host.contains('/') ==> host_and_port(host) is None && host_and_optional_port(host)
                is None
            &&& !host.contains(':') ==> host_and_port(host) is None
        }),
{
    let digits = crate::text::decimal_text(port as nat);
    let plain = host + seq![':'] + digits;
    let bracketed = seq!['['] + host + seq![']', ':'] + digits;
    let n = host.len() as int;
    lemma_port_has_no_marks(port);
    lemma_last_colon(host, digits);
    reveal_strlit("]:");
    if !host.contains('/') {
        lemma_no_slash(host, digits);
        if n > 0 {
            assert(plain[0] == host[0]);
        } else {
            assert(plain[0] == ':');
        }
    }
    if !host.contains(']') {
        lemma_bracket_ends(host, digits);
    }
    if !host.contains(':') {
        assert forall|k: int| -1 < k < host.len() implies !crate::text::just(':')(
            #[trigger] host[k],
        ) by {
            assert(host.contains(host[k]));
        }
        crate::text::lemma_last_where(host, crate::text::just(':'), -1);
        if host.len() > 0 {
            let rest = host.drop_first();
            if let Some(i) = crate::text::first_occurrence(rest, "]:"@) {
                crate::text::law_first_occurrence_is_the_first(rest, "]:"@, i);
                assert(rest[i + 1] == "]:"@[1]);
                assert(host.contains(host[i + 2]));
            }
        }
    }
}

proof fn lemma_bracket_ends(host: Seq<char>, digits: Seq<char>)
    requires
        !host.contains(']'),
    ensures
        ({
            let rest = (seq!['['] + host + seq![']', ':'] + digits).drop_first();
            let n = host.len() as int;
            &&& crate::text::first_occurrence(rest, "]:"@) == Some(n)
            &&& crate::text::first_where(rest, crate::text::just(']')) == n
            &&& rest.take(n) == host
            &&& rest.skip(n + 2) == digits
            &&& rest.skip(n + 1) == seq![':'] + digits
            &&& rest.len() > n + 1
        }),
{
    let rest = (seq!['['] + host + seq![']', ':'] + digits).drop_first();
    let n = host.len() as int;
    reveal_strlit("]:");
    assert(rest =~= host + seq![']', ':'] + digits);
    assert(crate::text::stands_in(rest, "]:"@, n)) by {
        assert(rest[n + 0] == "]:"@[0] && rest[n + 1] == "]:"@[1]);
    }
    crate::text::law_first_occurrence_is_the_first(rest, "]:"@, n);
    let i = crate::text::first_occurrence(rest, "]:"@)->0;
    if i < n {
        assert(rest[i + 0] == "]:"@[0]);
        assert(rest[i] == host[i]);
        assert(host.contains(host[i]));
    }
    assert forall|k: int| 0 <= k < n implies !crate::text::just(']')(#[trigger] rest[k]) by {
        assert(rest[k] == host[k]);
        assert(host.contains(host[k]));
    }
    crate::text::lemma_first_where(rest, crate::text::just(']'), n);
    assert(rest.take(n) =~= host);
    assert(rest.skip(n + 2) =~= digits);
    assert(rest.skip(n + 1) =~= seq![':'] + digits);
}

/// A Host header of a public server may leave the port out.
pub proof fn law_public_host_header_may_leave_the_port_out(host: Seq<char>, port: u16)
    requires
        host.len() > 0,
        !host.contains('/'),
    ensures
        ({
            let digits = crate::text::decimal_text(port as nat);
            &&& host[0] != '[' && !host.contains(':') ==> {
                &&& host_and_optional_port(host) == Some((host, None::<u16>))
                &&& host_and_optional_port(host + seq![':'] + digits) == Some((host, Some(port)))
            }
            &&& !host.contains(']') ==> {
                &&& host_and_optional_port(seq!['['] + host + seq![']']) == Some((host, None::<u16>))
                &&& host_and_optional_port(seq!['['] + host + seq![']', ':'] + digits) == Some(
                    (host, Some(port)),
                )
            }
        }),
{
    let digits = crate::text::decimal_text(port as nat);
    let plain = host + seq![':'] + digits;
    let bracketed = seq!['['] + host + seq![']', ':'] + digits;
    let bare = seq!['['] + host + seq![']'];
    let n = host.len() as int;
    lemma_port_has_no_marks(port);
    lemma_last_colon(host, digits);
    lemma_no_slash(host, digits);
    assert(plain[0] == host[0]);
    if !host.contains(':') {
        assert forall|k: int| -1 < k < host.len() implies !crate::text::just(':')(
            #[trigger] host[k],
        ) by {
            assert(host.contains(host[k]));
        }
        crate::text::lemma_last_where(host, crate::text::just(':'), -1);
    }
    if !host.contains(']') {
        lemma_bracket_ends(host, digits);
        assert((seq![':'] + digits).drop_first() =~= digits);
        let rest = bare.drop_first();
        assert(rest =~= host + seq![']']);
        assert forall|k: int| 0 <= k < n implies !crate::text::just(']')(#[trigger] rest[k]) by {
            assert(rest[k] == host[k]);
            assert(host.contains(host[k]));
        }
        crate::text::lemma_first_where(rest, crate::text::just(']'), n);
        assert(rest.take(n) =~= host);
        assert(rest.skip(n + 1) =~= seq![]);
    }
}

/// A local server is named by its address, or by `localhost` in whatever case where that is
/// a version 4 address, and by nothing else.
pub proof fn law_local_server_is_named_by_its_address(bind: BindView, host: Seq<char>)
    ensures
        bind.host matches IpAddr::V4(octets) ==> (bind.names(host) <==> host
            == crate::net::dotted(octets@) || crate::text::lowered(host) == "localhost"@),
        bind.host is V6 ==> (bind.names(host) <==> host == "::1"@ || host == "[::1]"@),
{
    reveal_strlit("localhost");
    assert(crate::text::lowered("localhost"@) =~= "localhost"@);
}

/// A local server accepts a Host header that names it with its own port, and no other port.
pub proof fn law_local_host_needs_name_and_port(bind: BindView, host: Seq<char>, port: u16)
    requires
        !host.contains('/'),
        host.len() == 0 || host[0] != '[',
    ensures
        loopback_host(host + seq![':'] + crate::text::decimal_text(port as nat), bind) <==> port
            == bind.port && bind.names(host),
{
    law_host_header_names_host_and_port(host, port);
}

/// What a local server prints as its address is accepted as a Host header.
pub proof fn law_own_address_is_accepted(bind: BindView)
    ensures
        loopback_host(bind_authority(bind), bind),
{
    reveal_strlit(":");
    assert(":"@ =~= seq![':']);
    let digits = crate::text::decimal_text(bind.port as nat);
    match bind.host {
        IpAddr::V4(octets) => {
            let host = crate::net::dotted(octets@);
            crate::net::lemma_dotted_is_plain(octets@);
            law_host_header_names_host_and_port(host, bind.port);
            assert(bind_authority(bind) =~= host + seq![':'] + digits);
        },
        IpAddr::V6(_) => {
            reveal_strlit("[::1]");
            reveal_strlit("::1");
            law_host_header_names_host_and_port("::1"@, bind.port);
            assert(bind_authority(bind) =~= seq!['['] + "::1"@ + seq![']', ':'] + digits);
        },
    }
}

/// A public server accepts a Host header that names its host, in whatever case, with its port
/// or, where that is the port of HTTPS, without one.
pub proof fn law_public_host_needs_name_and_port(url: PublicUrlView, host: Seq<char>, port: u16)
    requires
        host.len() > 0,
        host[0] != '[',
        !host.contains('/'),
        !host.contains(':'),
    ensures
        public_host(host, url) <==> url.port == 443 && crate::text::lowered(host)
            == crate::text::lowered(url.host),
        public_host(host + seq![':'] + crate::text::decimal_text(port as nat), url) <==> url.port
            == port && crate::text::lowered(host) == crate::text::lowered(url.host),
{
    law_public_host_header_may_leave_the_port_out(host, port);
}

/// Only a plain `https` address of a host is a public base URL, and it is an origin of the
/// server that it names.
pub proof fn law_public_url_is_its_own_origin(url: UrlView, public: PublicUrlView)
    requires
        public_base(url) == Some(public),
    ensures
        public_origin(url, public),
        url.scheme == "https"@,
        url.path == "/"@,
        url.username.len() == 0,
        url.password is None,
        url.query is None,
        url.fragment is None,
        public.text == url.text,
        url.port == Some(public.port),
        url.host matches Some(host) && public.host == crate::text::lowered(host),
{
    let host = url.host->0;
    assert(crate::text::lowered(crate::text::lowered(host)) =~= crate::text::lowered(host)) by {
        assert forall|i: int| 0 <= i < host.len() implies crate::text::lowered(
            crate::text::lowered(host),
        )[i] == crate::text::lowered(host)[i] by {
            crate::text::law_capitals_are_lowered(host, i);
            crate::text::law_capitals_are_lowered(crate::text::lowered(host), i);
        }
    }
}

/// Where an origin is accepted, so is the Host header that goes with it: its host and port
/// are those of the server, and a local server is reached by `http`, a public one by `https`.
pub proof fn law_origin_agrees_with_host(
    url: UrlView,
    bind: BindView,
    public: PublicUrlView,
    host: Seq<char>,
    port: u16,
)
    requires
        url.host == Some(host),
        url.port == Some(port),
        host.len() > 0,
        host[0] != '[',
        !host.contains('/'),
        !host.contains(':'),
    ensures
        loopback_origin(url, bind) ==> url.scheme == "http"@ && loopback_host(
            host + seq![':'] + crate::text::decimal_text(port as nat),
            bind,
        ),
        public_origin(url, public) ==> url.scheme == "https"@ && public_host(
            host + seq![':'] + crate::text::decimal_text(port as nat),
            public,
        ),
        loopback_origin(url, bind) || public_origin(url, public) ==> url.path == "/"@ && url.query
            is None && url.fragment is None,
{
    law_local_host_needs_name_and_port(bind, host, port);
    law_public_host_needs_name_and_port(public, host, port);
}

/// A local server answers this machine alone, a public one anybody.
pub proof fn law_strangers_reach_public_servers_only(peer: SocketAddr, policy: ExposurePolicy)
    ensures
        policy is Local ==> allowed_peer(peer, policy) == peer.ip.loopback(),
        policy is Public ==> allowed_peer(peer, policy),
{
}

/// A segment of a base path is a letter, a digit, or one of `-_.~`, one or more of them, but
/// neither one dot nor two.
pub proof fn law_segments_are_plain(s: Seq<char>, c: char)
    ensures
        !valid_segment(seq![]),
        !valid_segment(seq!['.']),
        !valid_segment(seq!['.', '.']),
        valid_segment(s) ==> (valid_segment(s.push(c)) <==> {
            ||| 'A' <= c <= 'Z'
            ||| 'a' <= c <= 'z'
            ||| '0' <= c <= '9'
            ||| c == '-'
            ||| c == '_'
            ||| c == '.'
            ||| c == '~'
        }),
        valid_segment(seq![c]) <==> {
            ||| 'A' <= c <= 'Z'
            ||| 'a' <= c <= 'z'
            ||| '0' <= c <= '9'
            ||| c == '-'
            ||| c == '_'
            ||| c == '~'
        },
{
    reveal_strlit(".");
    reveal_strlit("..");
    assert(seq!['.'] =~= "."@);
    assert(seq!['.', '.'] =~= ".."@);
    let longer = s.push(c);
    assert(longer[s.len() as int] == c);
    if valid_segment(s) {
        assert(longer != "."@) by {
            assert(longer.len() > 1);
        }
        if longer == ".."@ {
            assert(s =~= "."@) by {
                assert(s[0] == longer[0]);
            }
        }
        if forall|i: int| 0 <= i < longer.len() ==> is_segment_char(#[trigger] longer[i]) {
            assert(is_segment_char(longer[s.len() as int]));
        }
        if is_segment_char(c) {
            assert forall|i: int| 0 <= i < longer.len() implies is_segment_char(
                #[trigger] longer[i],
            ) by {
                if i < s.len() {
                    assert(is_segment_char(s[i]));
                }
            }
        }
    }
    assert(seq![c][0] == c);
    if c == '.' {
        assert(seq![c] =~= "."@);
    } else {
        assert(seq![c] != "."@) by {
            assert("."@[0] == '.');
        }
    }
    assert(seq![c] != ".."@) by {
        assert(".."@.len() == 2);
    }
}

/// A base path is made of segments, with a slash before, between and after them, and takes at
/// most 256 bytes.
pub proof fn law_base_paths_are_made_of_segments(segment: Seq<char>, rest: Seq<char>)
    requires
        !segment.contains('/'),
    ensures
        valid_base_path(seq!['/'] + segment + seq!['/']) <==> valid_segment(segment)
            && segment.len() <= 254,
        rest.len() > 0 ==> (valid_base_path(
            seq!['/'] + segment + seq!['/'] + rest + seq!['/'],
        ) <==> valid_segment(segment) && valid_base_path(seq!['/'] + rest + seq!['/'])
            && segment.len() + rest.len() <= 253),
{
    let one = seq!['/'] + segment + seq!['/'];
    let tail = seq!['/'] + rest + seq!['/'];
    let all = seq!['/'] + segment + seq!['/'] + rest + seq!['/'];
    let joined = segment + seq!['/'] + rest;
    crate::text::law_pieces_are_cut_at_each_mark(segment, rest, '/');
    assert(one.subrange(1, one.len() - 1) =~= segment);
    assert(tail.subrange(1, tail.len() - 1) =~= rest);
    assert(all.subrange(1, all.len() - 1) =~= joined);
    let a = crate::text::pieces(segment, '/');
    let b = crate::text::pieces(rest, '/');
    let ab = crate::text::pieces(joined, '/');
    assert(a[0] == segment && ab[0] == segment);
    assert(forall|i: int| 0 <= i < b.len() ==> #[trigger] b[i] == ab[i + 1]);
    if rest.len() > 0 && valid_base_path(all) {
        assert(valid_segment(ab[0]));
        assert forall|i: int| 0 <= i < b.len() implies valid_segment(#[trigger] b[i]) by {
            assert(valid_segment(ab[i + 1]));
        }
        lemma_path_of_segments(tail, rest);
    }
    if valid_segment(segment) && valid_base_path(tail) {
        assert forall|i: int| 0 <= i < ab.len() implies valid_segment(#[trigger] ab[i]) by {
            if i > 0 {
                assert(ab[i] == b[i - 1]);
                assert(valid_segment(b[i - 1]));
            }
        }
    }
    if valid_base_path(one) {
        assert(valid_segment(a[0]));
    }
}

proof fn lemma_path_of_segments(path: Seq<char>, inner: Seq<char>)
    requires
        path == seq!['/'] + inner + seq!['/'],
        0 < inner.len() <= 254,
        forall|i: int|
            0 <= i < crate::text::pieces(inner, '/').len() ==> valid_segment(
                #[trigger] crate::text::pieces(inner, '/')[i],
            ),
    ensures
        valid_base_path(path),
{
    assert(path.subrange(1, path.len() - 1) =~= inner);
}

/// A launch URL carries the token, then the font size, then the theme, and is mounted under
/// the base path where there is one.
pub proof fn law_launch_url_carries_its_settings(
    text: Seq<char>,
    token: Seq<u8>,
    font_size: u16,
    theme: Seq<char>,
    path: Seq<char>,
)
    requires
        token.len() == 32,
    ensures
        exists|value: Seq<char>, size: Seq<char>|
            #![trigger crate::protocol::token_bytes(value), crate::text::number(size, 10, 65535)]
            {
                &&& crate::protocol::token_bytes(value) == Some(token)
                &&& crate::text::number(size, 10, 65535) == Some(font_size as nat)
                &&& public_launch_url(text, token, font_size, theme, None)
                    == crate::web_url::url_with_pair(
                    crate::web_url::url_with_pair(
                        crate::web_url::url_with_pair(text, "token"@, value),
                        "fontSize"@,
                        size,
                    ),
                    "theme"@,
                    theme,
                )
            },
        public_launch_url(text, token, font_size, theme, Some(path)) == public_launch_url(
            crate::web_url::url_with_path(text, path),
            token,
            font_size,
            theme,
            None,
        ),
{
    crate::protocol::law_token_round_trip(token);
    crate::text::law_decimal_round_trip(font_size as nat, 65535);
    assert(crate::protocol::token_bytes(crate::protocol::hex_text(token)) == Some(token));
    assert(crate::text::number(crate::text::decimal_text(font_size as nat), 10, 65535) == Some(
        font_size as nat,
    ));
}

/// A stranger who is refused is told nothing but that; only what the server was started
/// with is named.
pub proof fn law_security_failures_have_their_words(error: SecurityError)
    ensures
        error is InvalidPublicUrl ==> error.text() == "invalid public url"@,
        error is InvalidBasePath ==> error.text() == "invalid base path"@,
        error is InvalidHost || error is InvalidOrigin || error is InvalidPeer || error is InvalidToken
            ==> error.text() == "forbidden"@,
{
}

/// A base path stands between two slashes.
pub proof fn law_base_paths_stand_between_slashes(path: Seq<char>)
    requires
        valid_base_path(path),
    ensures
        3 <= path.len() <= 256,
        path[0] == '/',
        path[path.len() - 1] == '/',
        path[1] != '/',
{
    let inner = path.subrange(1, path.len() - 1);
    let first = crate::text::pieces(inner, '/');
    assert(inner.len() > 0 && inner[0] == path[1]);
    if path[1] == '/' {
        let none = Seq::<char>::empty();
        let rest = inner.skip(1);
        crate::text::law_pieces_are_cut_at_each_mark(none, rest, '/');
        assert(none + seq!['/'] + rest =~= inner);
        assert(first[0] == none);
        assert(valid_segment(first[0]));
    }
}

} // verus!
