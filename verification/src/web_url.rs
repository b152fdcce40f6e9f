//! URLs by their parts.

use url::{Host, Url};
use vstd::prelude::*;

use crate::api_client::{ApiHost, HostView};

verus! {

/// The parts of a URL, as values.
pub struct UrlView {
    /// Scheme.
    pub scheme: Seq<char>,
    /// User name, empty where there is none.
    pub username: Seq<char>,
    /// Password.
    pub password: Option<Seq<char>>,
    /// Host.
    pub host: Option<Seq<char>>,
    /// Port, or the default port of the scheme.
    pub port: Option<u16>,
    /// Path.
    pub path: Seq<char>,
    /// Query.
    pub query: Option<Seq<char>>,
    /// Fragment.
    pub fragment: Option<Seq<char>>,
    /// The whole URL in its normal form.
    pub text: Seq<char>,
}

/// The parts of a URL.
#[derive(Debug, Clone, PartialEq, Eq)]
pub struct UrlParts {
    /// Scheme.
    pub scheme: String,
    /// User name, empty where there is none.
    pub username: String,
    /// Password.
    pub password: Option<String>,
    /// Host.
    pub host: Option<String>,
    /// Port, or the default port of the scheme.
    pub port: Option<u16>,
    /// Path.
    pub path: String,
    /// Query.
    pub query: Option<String>,
    /// Fragment.
    pub fragment: Option<String>,
    /// The whole URL in its normal form.
    pub text: String,
}

/// The contents of an optional text.
pub open spec fn opt_text(text: Option<String>) -> Option<Seq<char>> {
    match text {
        Some(text) => Some(text@),
        None => None,
    }
}

impl View for UrlParts {
    type V = UrlView;

    open spec fn view(&self) -> UrlView {
        UrlView {
            scheme: self.scheme@,
            username: self.username@,
            password: opt_text(self.password),
            host: opt_text(self.host),
            port: self.port,
            path: self.path@,
            query: opt_text(self.query),
            fragment: opt_text(self.fragment),
            text: self.text@,
        }
    }
}

/// What `url::Url::parse` makes of a text: the parts of the URL, or nothing where
/// the text is no URL.
pub uninterp spec fn parsed_url(text: Seq<char>) -> Option<UrlView>;

/// Tells whether `text` is the normal form of a URL of the given scheme: it parses as
/// such a URL, whose normal form is `text` itself.
pub open spec fn has_scheme(text: Seq<char>, scheme: Seq<char>) -> bool {
    parsed_url(text) matches Some(url) && url.scheme == scheme && url.text == text
}

/// Tells whether `text` is the normal form of an `https` URL.
pub open spec fn is_https(text: Seq<char>) -> bool {
    has_scheme(text, "https"@)
}

/// Tells whether `text` is the normal form of an `http` or `https` URL.
pub open spec fn is_web(text: Seq<char>) -> bool {
    has_scheme(text, "http"@) || is_https(text)
}

/// The path of a URL.
pub open spec fn path_of(text: Seq<char>) -> Seq<char> {
    match parsed_url(text) {
        Some(url) => url.path,
        None => ""@,
    }
}

/// Tells whether two URLs have the same fragment, or none.
pub open spec fn same_fragment(one: Seq<char>, two: Seq<char>) -> bool {
    parsed_url(one) matches Some(first) && parsed_url(two) matches Some(second) && first.fragment
        == second.fragment
}

/// `url::Url::parse` reads a URL by the rules of the URL standard. Its parts are
/// what the accessors of `url::Url` return; the normal form of an `http` or
/// `https` URL parses as a URL of the same parts again.
#[verifier::external_body]
pub(crate) fn parse_url(text: &str) -> (r: Option<UrlParts>)
    ensures
        match r {
            Some(parts) => parsed_url(text@) == Some(parts@),
            None => parsed_url(text@) is None,
        },
        r matches Some(parts) ==> (parts@.scheme == "https"@ || parts@.scheme == "http"@
            ==> parsed_url(parts@.text) == Some(parts@)),
{
    let url = Url::parse(text).ok()?;
    Some(UrlParts {
        scheme: url.scheme().to_owned(),
        username: url.username().to_owned(),
        password: url.password().map(str::to_owned),
        host: url.host_str().map(str::to_owned),
        port: url.port_or_known_default(),
        path: url.path().to_owned(),
        query: url.query().map(str::to_owned),
        fragment: url.fragment().map(str::to_owned),
        text: url.as_str().to_owned(),
    })
}

/// The host of a URL, by its kind: what `url::Url::host` returns.
pub uninterp spec fn url_host(text: Seq<char>) -> Option<HostView>;

/// `url::Url::host` returns the host of a URL, by its kind. A version 6 address is
/// written as its `Display` writes it.
#[verifier::external_body]
pub(crate) fn host_of_url(text: &str) -> (r: Option<ApiHost>)
    ensures
        match r {
            Some(host) => url_host(text@) == Some(host@),
            None => url_host(text@) is None,
        },
{
    let url = Url::parse(text).ok()?;
    Some(match url.host()? {
        Host::Domain(name) => ApiHost::Domain(name.to_owned()),
        Host::Ipv4(address) => ApiHost::Ipv4(address.octets()),
        Host::Ipv6(address) => ApiHost::Ipv6(address.to_string()),
    })
}

/// Number of characters that a byte of a path takes in a URL. Tabs and line breaks are
/// left out, and what a path cannot hold is percent-encoded.
pub open spec fn path_cost(byte: u8) -> nat {
    if byte == 0x09 || byte == 0x0a || byte == 0x0d {
        0
    } else if byte <= 0x20 || byte >= 0x7f || byte == 0x22 || byte == 0x23 || byte == 0x3c
        || byte == 0x3e || byte == 0x3f || byte == 0x60 || byte == 0x7b || byte == 0x7d {
        3
    } else {
        1
    }
}

/// Number of characters that the bytes of a path take in a URL.
pub open spec fn bytes_room(bytes: Seq<u8>) -> nat
    decreases bytes.len(),
{
    if bytes.len() == 0 {
        0
    } else {
        bytes_room(bytes.drop_last()) + path_cost(bytes.last())
    }
}

/// Number of characters that a path takes in a URL, where it has no `.` and `..`
/// segments, which would go. A path starts with a slash there.
pub open spec fn path_room(path: Seq<char>) -> nat {
    let bytes = vstd::utf8::encode_utf8(path);
    bytes_room(bytes) + if bytes.len() > 0 && (bytes[0] == 0x2f || bytes[0] == 0x5c) {
        0nat
    } else {
        1nat
    }
}

proof fn lemma_bytes_room(bytes: Seq<u8>)
    ensures
        bytes_room(bytes) <= 3 * bytes.len(),
    decreases bytes.len(),
{
    if bytes.len() > 0 {
        lemma_bytes_room(bytes.drop_last());
    }
}

/// A path takes three characters for each byte at most, and one for a slash.
pub proof fn lemma_path_room(path: Seq<char>)
    ensures
        path_room(path) <= 3 * crate::text::byte_len(path) + 1,
{
    lemma_bytes_room(vstd::utf8::encode_utf8(path));
}

/// Returns the number of characters that a path takes in a URL.
pub fn room_of_path(path: &str) -> (r: u128)
    ensures
        r == path_room(path@),
        r <= 3 * usize::MAX + 1,
{
    let bytes = path.as_bytes();
    let mut room: u128 = 0;
    let mut i: usize = 0;
    while i < bytes.len()
        invariant
            i <= bytes@.len(),
            room == bytes_room(bytes@.take(i as int)),
            room <= 3 * i,
        decreases bytes@.len() - i,
    {
        let byte: u8 = bytes[i];
        let cost: u128 = if byte == 0x09 || byte == 0x0a || byte == 0x0d {
            0
        } else if byte <= 0x20 || byte >= 0x7f || byte == 0x22 || byte == 0x23 || byte == 0x3c
            || byte == 0x3e || byte == 0x3f || byte == 0x60 || byte == 0x7b || byte == 0x7d {
            3
        } else {
            1
        };
        proof {
            assert(bytes@.take(i + 1).drop_last() =~= bytes@.take(i as int));
        }
        room = room + cost;
        i = i + 1;
    }
    proof {
        assert(bytes@.take(i as int) =~= bytes@);
    }
    if bytes.len() > 0 && (bytes[0] == 0x2f || bytes[0] == 0x5c) {
        room
    } else {
        room + 1
    }
}

/// The normal form of an `http` or `https` URL after `url::Url::set_path`.
pub uninterp spec fn url_with_path(text: Seq<char>, path: Seq<char>) -> Seq<char>;

/// Tells whether the path of a URL can be replaced by `path`: neither with the old nor
/// with the new one it exceeds what a `u32` counts.
pub open spec fn path_fits(text: Seq<char>, path: Seq<char>) -> bool {
    &&& crate::text::byte_len(text) <= u32::MAX
    &&& crate::text::byte_len(text) + path_room(path) <= u32::MAX + crate::text::byte_len(
        path_of(text),
    )
}

/// `url::Url::set_path` replaces the path, percent-encoding what a path cannot
/// hold. The result is again a normal form, with the same fragment. It panics where the
/// URL exceeds what a `u32` counts, before or after.
#[verifier::external_body]
pub(crate) fn set_url_path(text: &str, path: &str) -> (r: String)
    requires
        is_web(text@),
        path_fits(text@, path@),
    ensures
        r@ == url_with_path(text@, path@),
        is_web(r@),
        same_fragment(r@, text@),
        crate::text::byte_len(r@) + crate::text::byte_len(path_of(text@)) <= crate::text::byte_len(
            text@,
        ) + path_room(path@),
{
    let mut url = Url::parse(text).expect("a web url");
    url.set_path(path);
    String::from(url)
}

/// The normal form of an `http` or `https` URL after `append_pair` on its
/// `url::Url::query_pairs_mut`.
pub uninterp spec fn url_with_pair(text: Seq<char>, key: Seq<char>, value: Seq<char>) -> Seq<char>;

/// `url::Url::query_pairs_mut` and `append_pair` add a form-encoded name and
/// value to the query, each byte as three characters at most, with two
/// separators at most. They panic where a new query, or the fragment behind it, would
/// start beyond what a `u32` counts.
#[verifier::external_body]
pub(crate) fn append_url_pair(text: &str, key: &str, value: &str) -> (r: String)
    requires
        is_web(text@),
        crate::text::byte_len(text@) <= u32::MAX,
        parsed_url(text@) matches Some(url) && url.fragment is Some ==> crate::text::byte_len(text@)
            + 3 * (crate::text::byte_len(key@) + crate::text::byte_len(value@)) + 2 <= u32::MAX,
    ensures
        r@ == url_with_pair(text@, key@, value@),
        is_web(r@),
        crate::text::byte_len(r@) <= crate::text::byte_len(text@) + 3 * (crate::text::byte_len(key@)
            + crate::text::byte_len(value@)) + 2,
{
    let mut url = Url::parse(text).expect("a web url");
    url.query_pairs_mut().append_pair(key, value);
    String::from(url)
}

/// The normal form of an `http` or `https` URL after `url::Url::set_query` with
/// nothing.
pub uninterp spec fn url_without_query(text: Seq<char>) -> Seq<char>;

/// `url::Url::set_query` with nothing drops the query. The path and the fragment stay.
#[verifier::external_body]
pub(crate) fn clear_url_query(text: &str) -> (r: String)
    requires
        is_web(text@),
    ensures
        r@ == url_without_query(text@),
        is_web(r@),
        same_fragment(r@, text@),
        path_of(r@) == path_of(text@),
{
    let mut url = Url::parse(text).expect("a web url");
    url.set_query(None);
    String::from(url)
}

/// A web URL is one of the `http` or `https` scheme in its normal form.
pub proof fn law_web_urls_have_web_schemes(text: Seq<char>, url: UrlView)
    requires
        parsed_url(text) == Some(url),
    ensures
        is_https(text) <==> url.scheme == "https"@ && url.text == text,
        is_web(text) <==> (url.scheme == "http"@ || url.scheme == "https"@) && url.text == text,
        path_of(text) == url.path,
        same_fragment(text, text),
{
}

/// A path takes as much room in a URL as its characters, where these are letters, digits and
/// slashes behind a first slash: no room is lost, and none is missing.
pub proof fn law_plain_paths_take_their_length(bytes: Seq<u8>)
    requires
        forall|i: int|
            0 <= i < bytes.len() ==> (0x2d <= #[trigger] bytes[i] <= 0x39 || 0x41 <= bytes[i] <= 0x5a
                || 0x61 <= bytes[i] <= 0x7a),
    ensures
        bytes_room(bytes) == bytes.len(),
    decreases bytes.len(),
{
    if bytes.len() > 0 {
        law_plain_paths_take_their_length(bytes.drop_last());
    }
}

/// The room of a path is what its bytes take one by one: three characters where a byte is
/// percent-encoded, none where it is left out.
pub proof fn law_room_of_a_path_adds_up(bytes: Seq<u8>, byte: u8)
    ensures
        bytes_room(bytes.push(byte)) >= bytes_room(bytes),
        byte > 0x7f || byte == 0x20 || byte == 0x23 || byte == 0x3f ==> bytes_room(bytes.push(byte))
            == bytes_room(bytes) + 3,
        byte == 0x09 || byte == 0x0a || byte == 0x0d ==> bytes_room(bytes.push(byte)) == bytes_room(
            bytes,
        ),
{
    assert(bytes.push(byte).drop_last() =~= bytes);
}

} // verus!
