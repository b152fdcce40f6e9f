use std::str::FromStr;

use termstage::net::{IpAddr, SocketAddr};
use termstage::protocol::AccessToken;
use termstage::security::{
    validate_access_token, validate_peer_for_policy, AllowedHost, AllowedOrigin, BasePath,
    ExposurePolicy, LoopbackBind, PeerAddr, PublicBaseUrl, SecurityError,
};

const LOCALHOST: IpAddr = IpAddr::V4([127, 0, 0, 1]);
const LOCALHOST6: IpAddr = IpAddr::V6([0, 0, 0, 0, 0, 0, 0, 1]);

fn addr(octets: [u8; 4], port: u16) -> SocketAddr {
    SocketAddr { ip: IpAddr::V4(octets), port }
}

#[test]
fn test_should_accept_exact_loopback_host() {
    let bind = LoopbackBind::new(LOCALHOST, 49200).unwrap();
    let host = AllowedHost::validate("127.0.0.1:49200", bind).unwrap();
    assert_eq!(host.as_str(), "127.0.0.1:49200");
    assert!(AllowedHost::validate("localhost:49200", bind).is_ok());
}

#[test]
fn test_should_reject_invalid_host() {
    let bind = LoopbackBind::new(LOCALHOST, 49200).unwrap();
    assert!(matches!(
        AllowedHost::validate("127.0.0.1:49201", bind),
        Err(SecurityError::InvalidHost)
    ));
    assert!(matches!(
        AllowedHost::validate("example.com:49200", bind),
        Err(SecurityError::InvalidHost)
    ));
}

#[test]
fn test_should_accept_same_origin() {
    let bind = LoopbackBind::new(LOCALHOST, 49200).unwrap();
    let origin = AllowedOrigin::validate("http://127.0.0.1:49200", bind).unwrap();
    assert_eq!(origin.as_str(), "http://127.0.0.1:49200");
}

#[test]
fn test_should_reject_origin_mismatch() {
    let bind = LoopbackBind::new(LOCALHOST, 49200).unwrap();
    assert!(matches!(
        AllowedOrigin::validate("http://127.0.0.1:49201", bind),
        Err(SecurityError::InvalidOrigin)
    ));
    assert!(matches!(
        AllowedOrigin::validate("https://127.0.0.1:49200", bind),
        Err(SecurityError::InvalidOrigin)
    ));
    assert!(matches!(
        AllowedOrigin::validate("file://127.0.0.1:49200", bind),
        Err(SecurityError::InvalidOrigin)
    ));
}

#[test]
fn test_should_validate_peer_loopback() {
    let local = addr([127, 0, 0, 1], 5000);
    let peer = PeerAddr::validate(local).unwrap();
    assert_eq!(peer.get(), local);
    let remote = addr([192, 0, 2, 1], 5000);
    assert!(matches!(PeerAddr::validate(remote), Err(SecurityError::InvalidPeer)));
}

#[test]
fn test_should_validate_ipv6_loopback_host() {
    let bind = LoopbackBind::new(LOCALHOST6, 49200).unwrap();
    assert!(AllowedHost::validate("[::1]:49200", bind).is_ok());
}

#[test]
fn test_should_validate_public_base_url() {
    let url = PublicBaseUrl::parse("https://term.example.com/").unwrap();
    assert_eq!(url.as_str(), "https://term.example.com/");
    assert!(matches!(
        PublicBaseUrl::parse("http://term.example.com/"),
        Err(SecurityError::InvalidPublicUrl)
    ));
    assert!(matches!(
        PublicBaseUrl::parse("https://term.example.com/path"),
        Err(SecurityError::InvalidPublicUrl)
    ));
    assert!(matches!(
        PublicBaseUrl::parse("https://user@term.example.com/"),
        Err(SecurityError::InvalidPublicUrl)
    ));
    assert!(PublicBaseUrl::parse("not a url").is_err());
    assert_eq!(
        PublicBaseUrl::parse("HTTPS://Term.Example.com").unwrap().as_str(),
        "https://term.example.com/"
    );
}

#[test]
fn test_should_validate_public_host_and_origin() {
    let policy =
        ExposurePolicy::Public(PublicBaseUrl::parse("https://term.example.com/").unwrap());
    assert!(AllowedHost::validate_for_policy("term.example.com", &policy).is_ok());
    assert!(AllowedHost::validate_for_policy("term.example.com:443", &policy).is_ok());
    assert!(AllowedOrigin::validate_for_policy("https://term.example.com", &policy).is_ok());
    assert!(matches!(
        AllowedHost::validate_for_policy("evil.example", &policy),
        Err(SecurityError::InvalidHost)
    ));
    assert!(matches!(
        AllowedOrigin::validate_for_policy("https://evil.example", &policy),
        Err(SecurityError::InvalidOrigin)
    ));
    assert!(matches!(
        AllowedOrigin::validate_for_policy("http://term.example.com", &policy),
        Err(SecurityError::InvalidOrigin)
    ));
}

#[test]
fn test_should_allow_public_non_loopback_peer() {
    let policy =
        ExposurePolicy::Public(PublicBaseUrl::parse("https://term.example.com/").unwrap());
    let remote = addr([192, 0, 2, 1], 5000);
    let peer = validate_peer_for_policy(remote, &policy).unwrap();
    assert_eq!(peer.get(), remote);
}

#[test]
fn test_should_parse_valid_base_path() {
    let parsed = BasePath::parse("/p/abc123/").unwrap();
    assert_eq!(parsed.as_str(), "/p/abc123/");
    assert_eq!(parsed.nest_prefix(), "/p/abc123");
    let multi = BasePath::parse("/coder/p/abc-123_v2/").unwrap();
    assert_eq!(multi.as_str(), "/coder/p/abc-123_v2/");
}

#[test]
fn test_should_reject_invalid_base_path() {
    for value in [
        "",
        "/",
        "p/abc/",
        "/p/abc",
        "/p//abc/",
        "/p/../abc/",
        "/p/./abc/",
        "/p/abc?x=1/",
        "/p/abc with space/",
    ] {
        assert!(
            matches!(BasePath::parse(value), Err(SecurityError::InvalidBasePath)),
            "expected {value:?} to be rejected"
        );
    }
}

#[test]
fn test_should_reject_empty_and_encoded_segments() {
    assert!(BasePath::parse("//p/").is_err());
    assert!(BasePath::parse("/p/%2e%2e/").is_err());
}

#[test]
fn test_should_render_public_launch_url_with_base_path() {
    let url = PublicBaseUrl::parse("https://term.example.com/").unwrap();
    let token = AccessToken::from_bytes([1; 32]);
    let base = BasePath::parse("/p/sess-1/").unwrap();
    let rendered = url.launch_url_with_base_path(&token, 24, "high-contrast", Some(&base));
    assert!(rendered.starts_with("https://term.example.com/p/sess-1/?"), "{rendered}");
    assert!(rendered.contains("token="));
    assert!(rendered.contains("fontSize=24"));
    assert_eq!(
        rendered,
        format!(
            "https://term.example.com/p/sess-1/?token={}&fontSize=24&theme=high-contrast",
            "01".repeat(32)
        )
    );
}

#[test]
fn test_should_build_public_launch_url() {
    let url = PublicBaseUrl::parse("https://term.example.com/").unwrap();
    let token = AccessToken::from_bytes([4; 32]);
    assert_eq!(
        url.launch_url(&token, 24, "high-contrast"),
        format!(
            "https://term.example.com/?token={}&fontSize=24&theme=high-contrast",
            token.to_url_token()
        )
    );
}

#[test]
fn test_should_compare_tokens_without_leaking() {
    let expected = AccessToken::from_bytes([1; 32]);
    let supplied = AccessToken::from_bytes([1; 32]);
    let wrong = AccessToken::from_bytes([2; 32]);
    assert!(validate_access_token(&expected, &supplied).is_ok());
    assert!(matches!(
        validate_access_token(&expected, &wrong),
        Err(SecurityError::InvalidToken)
    ));
    assert_eq!(format!("{:?}", SecurityError::InvalidToken), "InvalidToken");
}

#[test]
fn test_should_bind_to_loopback_only() {
    assert!(LoopbackBind::new(IpAddr::V4([0, 0, 0, 0]), 1).is_err());
    assert!(LoopbackBind::new(IpAddr::V4([127, 9, 8, 7]), 1).is_ok());
    assert!(LoopbackBind::new(IpAddr::V6([0; 8]), 1).is_err());
    assert!(ExposurePolicy::local(IpAddr::V4([10, 0, 0, 1]), 1).is_err());
    assert_eq!(LoopbackBind::new(LOCALHOST6, 80).unwrap().authority(), "[::1]:80");
}

#[test]
fn test_should_read_paths_and_urls_from_text() {
    assert_eq!(BasePath::from_str("/shell/"), BasePath::parse("/shell/"));
    assert!(BasePath::from_str("/shell/").is_ok());
    assert_eq!(BasePath::from_str("shell"), BasePath::parse("shell"));
    assert!(BasePath::from_str("shell").is_err());

    let text = "https://example.com/";
    let url = PublicBaseUrl::from_str(text).unwrap();
    assert!(url == PublicBaseUrl::parse(text).unwrap());
    assert_eq!(url.debug_text(), "PublicBaseUrl { url: \"https://example.com/\", .. }");
    assert!(PublicBaseUrl::from_str("http://example.com").is_err());
}
