use std::str::FromStr;

use termstage::protocol::{
    AccessToken, HeartbeatSequence, ProtocolError, SafeMessage, SessionName, TerminalCols,
    TerminalRows, TerminalSize, ACCESS_TOKEN_BYTES,
};

#[test]
fn test_should_validate_session_names() {
    let name = SessionName::new("demo_1.ok-name").unwrap();
    assert_eq!(name.as_str(), "demo_1.ok-name");
    assert!(matches!(SessionName::new(""), Err(ProtocolError::InvalidSessionName)));
    assert!(matches!(SessionName::new("bad/name"), Err(ProtocolError::InvalidSessionName)));
    assert!(matches!(
        SessionName::new(&"x".repeat(65)),
        Err(ProtocolError::InvalidSessionName)
    ));
    assert!(SessionName::new(&"x".repeat(64)).is_ok());
    assert_eq!(SessionName::from_str("demo").unwrap().as_str(), "demo");
}

#[test]
fn test_should_validate_terminal_dimensions() {
    let size = TerminalSize::new(80, 24).unwrap();
    assert_eq!(size.cols.get(), 80);
    assert_eq!(size.rows.get(), 24);
    assert!(matches!(TerminalCols::new(19), Err(ProtocolError::InvalidTerminalCols)));
    assert!(matches!(TerminalCols::new(301), Err(ProtocolError::InvalidTerminalCols)));
    assert!(matches!(TerminalRows::new(4), Err(ProtocolError::InvalidTerminalRows)));
    assert!(matches!(TerminalRows::new(121), Err(ProtocolError::InvalidTerminalRows)));
    assert!(matches!(TerminalSize::new(19, 4), Err(ProtocolError::InvalidTerminalCols)));
    assert!(matches!(TerminalSize::new(20, 4), Err(ProtocolError::InvalidTerminalRows)));
}

#[test]
fn test_should_redact_access_token_debug() {
    let token = AccessToken::from_bytes([7; ACCESS_TOKEN_BYTES]);
    let debug = token.debug_text();
    assert!(debug.contains("REDACTED"));
    assert!(!debug.contains('7'));
}

#[test]
fn test_should_compare_access_tokens_constant_time() {
    let token = AccessToken::from_bytes([1; ACCESS_TOKEN_BYTES]);
    let same = AccessToken::from_bytes([1; ACCESS_TOKEN_BYTES]);
    let different = AccessToken::from_bytes([2; ACCESS_TOKEN_BYTES]);
    assert!(token.constant_time_eq(&same));
    assert!(!token.constant_time_eq(&different));
}

#[test]
fn test_should_encode_and_parse_url_token() {
    let token = AccessToken::from_bytes([0xab; ACCESS_TOKEN_BYTES]);
    let encoded = token.to_url_token();
    assert_eq!(encoded.len(), ACCESS_TOKEN_BYTES * 2);
    let parsed = AccessToken::from_str(&encoded).unwrap();
    assert!(token.constant_time_eq(&parsed));
    assert!(matches!(
        AccessToken::from_str("not-a-token"),
        Err(ProtocolError::InvalidAccessToken)
    ));
}

#[test]
fn test_should_reject_overlong_safe_message() {
    assert!(matches!(
        SafeMessage::new(&"x".repeat(513)),
        Err(ProtocolError::SafeMessageTooLong)
    ));
}

#[test]
fn test_should_read_upper_case_tokens() {
    let token = AccessToken::parse(&"Ab".repeat(32)).unwrap();
    assert_eq!(token.as_bytes(), &[0xab_u8; 32]);
    assert_eq!(token.to_url_token(), "ab".repeat(32));
    assert!(AccessToken::parse(&"ag".repeat(32)).is_err());
}

#[test]
fn test_should_generate_different_tokens() {
    let first = AccessToken::generate().unwrap();
    let second = AccessToken::generate().unwrap();
    assert!(!first.constant_time_eq(&second));
    assert!(!first.constant_time_eq(&AccessToken::from_bytes([0; ACCESS_TOKEN_BYTES])));
}

#[test]
fn test_should_stop_heartbeats_at_the_end() {
    assert_eq!(HeartbeatSequence::new(1).next().unwrap().get(), 2);
    assert!(HeartbeatSequence::new(u64::MAX).next().is_err());
}

#[test]
fn test_should_convert_from_plain_values() {
    assert_eq!(SessionName::try_from("demo".to_owned()).unwrap().as_str(), "demo");
    assert!(matches!(
        SessionName::try_from("no name".to_owned()),
        Err(ProtocolError::InvalidSessionName)
    ));
    assert_eq!(TerminalCols::try_from(20).unwrap().get(), 20);
    assert!(matches!(TerminalCols::try_from(301), Err(ProtocolError::InvalidTerminalCols)));
    assert_eq!(TerminalRows::try_from(120).unwrap().get(), 120);
    assert!(matches!(TerminalRows::try_from(4), Err(ProtocolError::InvalidTerminalRows)));
    assert!(AccessToken::from_bytes([1; 32]) == AccessToken::from_bytes([1; 32]));
    assert!(AccessToken::from_bytes([1; 32]) != AccessToken::from_bytes([2; 32]));
}
