use termstage::api_client::{
    connect_host, decode_chunked_body, endpoint_target, extend_response, host_header,
    parse_http_response, post_request, request_target, response_text, target_with_host,
    ApiCallError, ApiHost, HttpError, TargetError,
};
use termstage::api_request::{
    api_endpoint_url, api_request, api_token, parse_http_url, ApiArgs, ApiBody, ApiCommand,
};
use termstage::cli::{
    exposure_and_token_from_parts, exposure_with_token, initial_terminal_size, local_exec_command,
    local_semantic_key_token, semantic_wait_timeout, terminal_size_from_values,
    validate_local_scroll_amount, validate_local_text, validate_token_env_name,
    validate_wait_text, CliError, CliScrollDirection, CliTheme, SessionAttachArgs, TextField,
    ValidatedSessionAttachConfig, WebExposure, DEFAULT_FONT_SIZE, FONT_SIZE_MAX,
};
use termstage::cli_commands::{
    run_session_command, BackendSessionCommand, SessionCommand, SessionPlan,
};
use termstage::cli_sessions::{
    cli_record_from_rmux_session, cli_record_from_tmux_session, list_cli_sessions,
    native_attach_args, resolve_cli_session_auto, session_created, session_search, session_stopped,
    termstage_rmux_session_name, termstage_tmux_session_name, write_session_inspect_details,
    write_session_list, CliBackend, CliSessionInspectDetails, CliSessionRecord, NameError,
    ResolvedCliSession, SearchStep, SessionStop, StopStep,
};
use termstage::local_terminal::{parse_stty_size, parse_stty_state, read_stty_size, SttyError};
use termstage::net::IpAddr;
use termstage::protocol::{AccessToken, ProtocolError, SessionName, TerminalSize};
use termstage::web_url::room_of_path;
use termstage::security::BasePath;
use termstage::web::SEMANTIC_SCROLL_MAX_AMOUNT;

const LOCALHOST: IpAddr = IpAddr::V4([127, 0, 0, 1]);
const UNSPECIFIED: IpAddr = IpAddr::V4([0, 0, 0, 0]);

fn name(text: &str) -> SessionName {
    SessionName::new(text).unwrap()
}

fn session_attach_args() -> SessionAttachArgs {
    SessionAttachArgs {
        session_id: "demo".to_owned(),
        backend: None,
        browser: false,
        host: LOCALHOST,
        port: 0,
        open: false,
        font_size: DEFAULT_FONT_SIZE,
        theme: CliTheme::HighContrast,
        expose_public: false,
        public_url: None,
        token_env: None,
        base_path: None,
    }
}

fn attach(args: SessionAttachArgs) -> Result<ValidatedSessionAttachConfig, CliError> {
    ValidatedSessionAttachConfig::try_from(args, None)
}

#[test]
fn test_should_parse_initial_terminal_size_values() {
    assert_eq!(
        terminal_size_from_values("132", "43").unwrap(),
        TerminalSize::new(132, 43).unwrap()
    );
}

#[test]
fn test_should_reject_invalid_initial_terminal_size_values() {
    assert!(terminal_size_from_values("0", "24").is_err());
    assert!(terminal_size_from_values("80", "0").is_err());
    assert!(terminal_size_from_values("wide", "24").is_err());
}

#[test]
fn test_should_prefer_the_size_of_the_terminal() {
    let size = |cols, rows| TerminalSize::new(cols, rows).unwrap();
    assert_eq!(initial_terminal_size(Some((100, 30)), Some("132"), Some("43")), size(100, 30));
    assert_eq!(initial_terminal_size(Some((0, 0)), Some("132"), Some("43")), size(132, 43));
    assert_eq!(initial_terminal_size(None, Some("132"), None), size(80, 24));
    assert_eq!(initial_terminal_size(None, Some("1"), Some("1")), size(80, 24));
}

#[test]
fn test_should_reject_non_loopback_host() {
    let args = SessionAttachArgs { host: UNSPECIFIED, ..session_attach_args() };
    assert!(matches!(attach(args), Err(CliError::HostNotLoopback)));
}

#[test]
fn test_should_validate_public_exposure_config() {
    let token = AccessToken::from_bytes([3; 32]).to_url_token();
    let (exposure, parsed_token) = exposure_and_token_from_parts(
        true,
        UNSPECIFIED,
        Some("https://term.example.com/"),
        Some("TERMSTAGE_TOKEN"),
        Some(&token),
    )
    .unwrap();
    assert!(matches!(exposure, WebExposure::Public { .. }));
    assert!(parsed_token.constant_time_eq(&AccessToken::from_bytes([3; 32])));
}

#[test]
fn test_should_reject_public_mode_without_required_flags() {
    assert!(exposure_and_token_from_parts(true, LOCALHOST, None, None, None).is_err());
}

#[test]
fn test_should_judge_public_flags_in_order() {
    let refused = |url, env, value| {
        exposure_and_token_from_parts(true, LOCALHOST, url, env, value).err().unwrap()
    };
    let url = Some("https://term.example.com/");
    assert_eq!(refused(None, None, None), CliError::PublicUrlMissing);
    assert_eq!(refused(Some("http://x/"), None, None), CliError::PublicUrl);
    assert_eq!(refused(url, None, None), CliError::TokenEnvMissing);
    assert_eq!(refused(url, Some("a"), None), CliError::TokenEnvStart);
    assert_eq!(refused(url, Some("TOKEN"), None), CliError::TokenUnset);
    assert_eq!(refused(url, Some("TOKEN"), Some("x")), CliError::TokenValue);
}

#[test]
fn test_should_reject_public_args_without_public_mode() {
    let args = SessionAttachArgs {
        public_url: Some("https://term.example.com/".to_owned()),
        ..session_attach_args()
    };
    assert!(matches!(attach(args), Err(CliError::PublicUrlInLocalMode)));
    let args =
        SessionAttachArgs { token_env: Some("TOKEN".to_owned()), ..session_attach_args() };
    assert!(matches!(attach(args), Err(CliError::TokenEnvInLocalMode)));
}

#[test]
fn test_should_reject_invalid_token_env_name() {
    assert!(validate_token_env_name("TERMSTAGE_TOKEN").is_ok());
    assert!(validate_token_env_name("termstage_token").is_err());
    assert!(validate_token_env_name("").is_err());
    assert!(validate_token_env_name("TERMSTAGE-TOKEN").is_err());
    assert_eq!(validate_token_env_name(&"A".repeat(129)), Err(CliError::TokenEnvTooLong));
    assert!(validate_token_env_name(&"A".repeat(128)).is_ok());
}

#[test]
fn test_should_reject_invalid_session_name() {
    let args = SessionAttachArgs { session_id: "bad/name".to_owned(), ..session_attach_args() };
    assert!(matches!(attach(args), Err(CliError::SessionId)));
}

#[test]
fn test_should_reject_invalid_font_size() {
    let args = SessionAttachArgs {
        font_size: FONT_SIZE_MAX.saturating_add(1),
        ..session_attach_args()
    };
    assert!(matches!(attach(args), Err(CliError::FontSize)));
}

#[test]
fn test_should_validate_base_path_argument() {
    let args =
        SessionAttachArgs { base_path: Some("/p/sess-1/".to_owned()), ..session_attach_args() };
    let config = attach(args).ok().unwrap();
    assert_eq!(config.base_path.as_ref().map(BasePath::as_str), Some("/p/sess-1/"));
    assert!(matches!(config.exposure, WebExposure::Local));
    assert_eq!(config.presentation.font_size, 24);
}

#[test]
fn test_should_reject_invalid_base_path_argument() {
    let args = SessionAttachArgs {
        base_path: Some("p/missing-leading-slash/".to_owned()),
        ..session_attach_args()
    };
    assert!(matches!(attach(args), Err(CliError::BasePath)));
}

#[test]
fn test_should_map_session_send_key_semantic_tokens() {
    assert_eq!(local_semantic_key_token("Enter").unwrap(), "Enter");
    assert_eq!(local_semantic_key_token("CtrlC").unwrap(), "C-c");
    assert_eq!(local_semantic_key_token("CtrlD").unwrap(), "C-d");
    assert_eq!(local_semantic_key_token("ArrowUp").unwrap(), "Up");
    assert_eq!(local_semantic_key_token("a").unwrap(), "a");
    assert!(local_semantic_key_token("").is_err());
    assert!(local_semantic_key_token("C-c").is_err());
    assert!(local_semantic_key_token("\n").is_err());
    assert_eq!(local_semantic_key_token(&"x".repeat(33)), Err(CliError::KeyLength));
}

#[test]
fn test_should_validate_session_exec_command_text() {
    assert_eq!(
        local_exec_command(&vec!["echo".to_owned(), "ok".to_owned()]).unwrap(),
        "echo ok"
    );
    assert!(local_exec_command(&vec!["bad\ncommand".to_owned()]).is_err());
    assert_eq!(
        local_exec_command(&vec!["a\0".to_owned()]),
        Err(CliError::TextHasNul(TextField::Command))
    );
}

#[test]
fn test_should_validate_session_scroll_amount() {
    assert_eq!(validate_local_scroll_amount(1).unwrap(), 1);
    assert_eq!(
        validate_local_scroll_amount(SEMANTIC_SCROLL_MAX_AMOUNT).unwrap(),
        SEMANTIC_SCROLL_MAX_AMOUNT
    );
    assert!(validate_local_scroll_amount(0).is_err());
    assert!(validate_local_scroll_amount(SEMANTIC_SCROLL_MAX_AMOUNT + 1).is_err());
}

#[test]
fn test_should_validate_texts_and_timeouts() {
    assert_eq!(
        validate_local_text(&"x".repeat(4097), 4096, TextField::Text).unwrap_err().message(),
        "text must be at most 4096 bytes"
    );
    assert_eq!(
        validate_wait_text("", TextField::WaitFor).unwrap_err().message(),
        "wait-for must not be empty"
    );
    assert_eq!(semantic_wait_timeout(None).unwrap().as_nanos(), 5_000_000_000);
    assert_eq!(semantic_wait_timeout(Some(0)).err(), Some(CliError::WaitTimeout));
    assert!(semantic_wait_timeout(Some(60_000)).is_ok());
    assert!(semantic_wait_timeout(Some(60_001)).is_err());
}

#[test]
fn test_should_format_session_list_as_aligned_table() {
    let records = [
        CliSessionRecord {
            id: "TerminalUse-yoyo".to_owned(),
            backend: CliBackend::Tmux,
            display_name: "yoyo".to_owned(),
            backend_session: "TerminalUse-yoyo".to_owned(),
        },
        CliSessionRecord {
            id: "ts-short".to_owned(),
            backend: CliBackend::Tmux,
            display_name: "longer-name".to_owned(),
            backend_session: "ts-longer-name".to_owned(),
        },
    ];
    let mut output = String::new();

    write_session_list(&mut output, &records);

    assert_eq!(
        output,
        "SESSION_ID        BACKEND  DISPLAY_NAME\n\
         TerminalUse-yoyo  tmux     yoyo\n\
         ts-short          tmux     longer-name\n"
    );
}

#[test]
fn test_should_format_session_inspect_as_sections() {
    let details = CliSessionInspectDetails {
        record: CliSessionRecord {
            id: "TerminalUse-yoyo".to_owned(),
            backend: CliBackend::Rmux,
            display_name: "yoyo".to_owned(),
            backend_session: "TerminalUse-yoyo".to_owned(),
        },
        window: "0".to_owned(),
        pane: "%0".to_owned(),
        size: TerminalSize::new(181, 44).unwrap(),
    };
    let mut output = String::new();

    write_session_inspect_details(&mut output, &details);

    assert_eq!(
        output,
        "Session:\n  id            TerminalUse-yoyo\n  backend       rmux\n  display-name  yoyo\n\nProperties:\n  window        0\n  pane          %0\n  size          181x44\n\nAttach:\n  terminal      rmux attach -t TerminalUse-yoyo\n  browser       termstage session attach TerminalUse-yoyo --backend rmux --browser\n"
    );
}

#[test]
fn test_should_prefix_termstage_created_backend_session_names() {
    assert_eq!(termstage_tmux_session_name("abc").unwrap().as_str(), "TerminalUse-abc");
    assert_eq!(termstage_rmux_session_name("abc").unwrap().as_str(), "TerminalUse-abc");
    assert_eq!(
        termstage_tmux_session_name("TerminalUse-abc").unwrap().as_str(),
        "TerminalUse-abc"
    );
    assert_eq!(termstage_tmux_session_name("ts-abc").unwrap().as_str(), "TerminalUse-ts-abc");
    assert_eq!(termstage_tmux_session_name("a/b").unwrap_err(), NameError::Name);
    assert_eq!(
        termstage_tmux_session_name(&"a".repeat(60)).unwrap_err(),
        NameError::PrefixedName
    );
}

#[test]
fn test_should_derive_cli_record_from_tmux_session() {
    let record = cli_record_from_tmux_session(&name("TerminalUse-yoyo"));

    assert_eq!(record.id, "TerminalUse-yoyo");
    assert_eq!(record.backend, CliBackend::Tmux);
    assert_eq!(record.display_name, "yoyo");
    assert_eq!(record.backend_session, "TerminalUse-yoyo");
    let legacy = cli_record_from_tmux_session(&name("ts-yoyo"));
    assert_eq!(legacy.display_name, "yoyo");
}

#[test]
fn test_should_derive_cli_record_from_rmux_session() {
    let record = cli_record_from_rmux_session(&name("TerminalUse-demo"));

    assert_eq!(record.id, "TerminalUse-demo");
    assert_eq!(record.backend, CliBackend::Rmux);
    assert_eq!(record.display_name, "demo");
    assert_eq!(record.backend_session, "TerminalUse-demo");
    assert_eq!(cli_record_from_rmux_session(&name("ts-demo")).display_name, "ts-demo");
}

#[test]
fn test_should_search_names_in_order() {
    let search = session_search(CliBackend::Tmux, &name("demo"));
    let names: Vec<&str> = search.names.iter().map(SessionName::as_str).collect();
    assert_eq!(names, ["demo", "TerminalUse-demo", "ts-demo"]);
    assert_eq!(
        search.failure,
        "tmux session demo was not found; also tried TerminalUse-demo and ts-demo"
    );

    let search = session_search(CliBackend::Rmux, &name("TerminalUse-demo"));
    let names: Vec<&str> = search.names.iter().map(SessionName::as_str).collect();
    assert_eq!(names, ["TerminalUse-demo"]);

    let search = session_search(CliBackend::Tmux, &name(&"a".repeat(60)));
    assert_eq!(search.names.len(), 1);
    assert_eq!(search.failure, "invalid prefixed session name");
}

#[test]
fn test_should_resolve_a_session_that_one_backend_has() {
    let requested = name("demo");
    assert!(matches!(
        resolve_cli_session_auto(&requested, Some(name("ts-demo")), None),
        Ok(ResolvedCliSession::Tmux { record, backend_session })
            if record.display_name == "demo" && backend_session.as_str() == "ts-demo"
    ));
    assert!(matches!(
        resolve_cli_session_auto(&requested, None, Some(name("demo"))),
        Ok(ResolvedCliSession::Rmux { .. })
    ));
    assert_eq!(
        resolve_cli_session_auto(&requested, None, None).unwrap_err(),
        "session demo was not found in tmux or rmux"
    );
    assert_eq!(
        resolve_cli_session_auto(&requested, Some(name("demo")), Some(name("demo"))).unwrap_err(),
        "session demo is ambiguous across backends; pass --backend tmux or --backend rmux"
    );
}

#[test]
fn test_should_tell_what_was_created_and_stopped() {
    let record = cli_record_from_tmux_session(&name("TerminalUse-yoyo"));
    assert_eq!(
        session_created(&record),
        "id: TerminalUse-yoyo\nbackend: tmux\ndisplay-name: yoyo\nbackend-session: TerminalUse-yoyo\nattach: tmux attach -t TerminalUse-yoyo\nbrowser: termstage session attach TerminalUse-yoyo --backend tmux --browser\n"
    );
    assert_eq!(native_attach_args(&record), ["attach", "-t", "TerminalUse-yoyo"]);
    assert_eq!(
        session_stopped(true, CliBackend::Tmux, &name("ts-a"), &name("a")),
        "killed tmux session ts-a for requested session a\n"
    );
    assert_eq!(
        session_stopped(false, CliBackend::Tmux, &name("ts-a"), &name("a")),
        "requested session a resolved to ts-a; backend session was already gone\n"
    );
}

#[test]
fn test_should_list_the_sessions_of_the_backends_that_answer() {
    let tmux = || Some(vec![name("TerminalUse-a"), name("b")]);
    let rmux = || Some(vec![name("c")]);
    let ids = |records: Option<Vec<CliSessionRecord>>| -> Option<Vec<(CliBackend, String)>> {
        records.map(|list| list.into_iter().map(|record| (record.backend, record.id)).collect())
    };
    let entry = |backend, id: &str| (backend, id.to_owned());

    assert_eq!(
        ids(list_cli_sessions(None, tmux(), rmux())),
        Some(vec![
            entry(CliBackend::Tmux, "TerminalUse-a"),
            entry(CliBackend::Tmux, "b"),
            entry(CliBackend::Rmux, "c"),
        ])
    );
    assert_eq!(
        ids(list_cli_sessions(None, None, rmux())),
        Some(vec![entry(CliBackend::Rmux, "c")])
    );
    assert_eq!(ids(list_cli_sessions(None, None, None)), Some(vec![]));
    assert_eq!(
        ids(list_cli_sessions(Some(CliBackend::Rmux), tmux(), rmux())),
        Some(vec![entry(CliBackend::Rmux, "c")])
    );
    assert_eq!(ids(list_cli_sessions(Some(CliBackend::Tmux), None, rmux())), None);
}

#[test]
fn test_should_find_the_first_name_that_exists() {
    let search = session_search(CliBackend::Tmux, &name("demo"));
    assert_eq!(search.next(&vec![]), SearchStep::Check(name("demo")));
    assert_eq!(search.next(&vec![false]), SearchStep::Check(name("TerminalUse-demo")));
    assert_eq!(
        search.next(&vec![false, true]),
        SearchStep::Found(name("TerminalUse-demo"))
    );
    assert_eq!(search.next(&vec![true]), SearchStep::Found(name("demo")));
    assert_eq!(
        search.next(&vec![false, false, false]),
        SearchStep::NotFound(
            "tmux session demo was not found; also tried TerminalUse-demo and ts-demo".to_owned()
        )
    );
}

#[test]
fn test_should_reject_session_create_args_without_command() {
    let create = |backend, command: Option<&[u8]>| SessionCommand::Create {
        backend,
        name: "demo".to_owned(),
        command: command.map(<[u8]>::to_vec),
        command_args: vec![b"--readonly".to_vec()],
    };
    assert!(matches!(
        run_session_command(create(CliBackend::Tmux, None), None),
        Err(CliError::CommandArgsWithoutCommand)
    ));
    assert!(matches!(
        run_session_command(create(CliBackend::Tmux, Some(b"k9s")), None),
        Ok(SessionPlan::Create { session, command: BackendSessionCommand::Tmux(Some(command)) })
            if session.as_str() == "TerminalUse-demo"
                && command.executable() == b"k9s"
                && command.args() == [b"--readonly".to_vec()]
    ));
    assert!(matches!(
        run_session_command(create(CliBackend::Rmux, Some(b"k9s")), None),
        Ok(SessionPlan::Create { command: BackendSessionCommand::Rmux(Some(command)), .. })
            if command.argv() == ["k9s", "--readonly"]
    ));
    assert!(matches!(
        run_session_command(create(CliBackend::Rmux, Some(b"\xff")), None),
        Err(CliError::RmuxCommand)
    ));
}

#[test]
fn test_should_plan_session_commands() {
    let session_id = || "demo".to_owned();
    assert!(matches!(
        run_session_command(SessionCommand::Attach(session_attach_args()), None),
        Ok(SessionPlan::AttachNative { session, backend: None }) if session.as_str() == "demo"
    ));
    let browser = SessionAttachArgs { browser: true, ..session_attach_args() };
    assert!(matches!(
        run_session_command(SessionCommand::Attach(browser), None),
        Ok(SessionPlan::AttachBrowser(_))
    ));
    assert!(matches!(
        run_session_command(
            SessionCommand::SendKey {
                session_id: session_id(),
                backend: Some(CliBackend::Rmux),
                key: "CtrlC".to_owned()
            },
            None
        ),
        Ok(SessionPlan::SendKey { backend: Some(CliBackend::Rmux), token, .. }) if token == "C-c"
    ));
    assert!(matches!(
        run_session_command(
            SessionCommand::Exec {
                session_id: session_id(),
                backend: None,
                wait_for: Some("done".to_owned()),
                wait_timeout_ms: Some(20),
                capture: true,
                command: vec!["echo".to_owned(), "done".to_owned()],
            },
            None
        ),
        Ok(SessionPlan::Exec { command, wait_for: Some(text), timeout, capture: true, .. })
            if command == "echo done" && text == "done" && timeout.as_nanos() == 20_000_000
    ));
    assert!(matches!(
        run_session_command(
            SessionCommand::Scroll {
                session_id: "bad/name".to_owned(),
                backend: None,
                direction: CliScrollDirection::Down,
                amount: 0,
            },
            None
        ),
        Err(CliError::ScrollAmount)
    ));
    assert!(matches!(
        run_session_command(SessionCommand::Stop { session_id: "bad/name".to_owned() }, None),
        Err(CliError::SessionId)
    ));
}

#[test]
fn test_should_build_api_endpoint_url_with_base_path() {
    let token = AccessToken::from_bytes([7; 32]);
    let session = name("demo");
    let url = api_endpoint_url("http://127.0.0.1:1234/p/demo/", &session, "read-screen", &token)
        .unwrap();
    assert_eq!(
        url,
        "http://127.0.0.1:1234/p/demo/api/sessions/demo/read-screen?token=0707070707070707070707070707070707070707070707070707070707070707"
    );
}

#[test]
fn test_should_refuse_other_base_urls() {
    let token = AccessToken::from_bytes([7; 32]);
    let refused = |url: &str| api_endpoint_url(url, &name("demo"), "scroll", &token).unwrap_err();
    assert_eq!(refused("nonsense"), CliError::Url);
    assert_eq!(refused("https://127.0.0.1/"), CliError::UrlScheme);
    assert_eq!(refused("http://user@127.0.0.1/"), CliError::UrlCredentials);
    assert_eq!(refused("http://127.0.0.1/#x"), CliError::UrlFragment);
    let replaced =
        api_endpoint_url("http://127.0.0.1:80/?a=b", &name("demo"), "scroll", &token).unwrap();
    assert!(replaced.starts_with("http://127.0.0.1/api/sessions/demo/scroll?token=07"));
    assert!(!replaced.contains("a=b"));
}

#[test]
fn test_should_build_api_requests() {
    let args = |command, url: Option<&str>| ApiArgs {
        url: url.map(str::to_owned),
        token: None,
        controller_id: 7,
        command,
    };
    let (session, endpoint, body) = api_request(args(
        ApiCommand::SendText { session: "demo".to_owned(), text: "hi".to_owned() },
        Some("http://x/"),
    ))
    .unwrap();
    assert_eq!(session.as_str(), "demo");
    assert_eq!(endpoint.url, "http://x/");
    assert_eq!(endpoint.path, "write-text");
    assert_eq!(body, ApiBody::Text { controller_id: 7, text: "hi".to_owned() });
    let (_, endpoint, body) =
        api_request(args(ApiCommand::ReadScreen { session: "demo".to_owned() }, Some("x")))
            .unwrap();
    assert_eq!(endpoint.path, "read-screen");
    assert_eq!(body, ApiBody::Empty);
    assert_eq!(
        api_request(args(ApiCommand::ReadScreen { session: "demo".to_owned() }, None)).unwrap_err(),
        CliError::UrlMissing
    );
    assert_eq!(
        api_request(args(ApiCommand::AcquireLock { session: "a/b".to_owned() }, Some("x")))
            .unwrap_err(),
        CliError::SessionName
    );
    assert!(matches!(api_token(None), Err(CliError::TokenMissing)));
    assert!(matches!(api_token(Some("x")), Err(CliError::Token)));
    assert!(api_token(Some(&"0a".repeat(32))).is_ok());
}

#[test]
fn test_should_decode_chunked_http_response() {
    let response = b"HTTP/1.1 200 OK\r\nTransfer-Encoding: chunked\r\n\r\n5\r\nhello\r\n0\r\n\r\n";
    let parsed = parse_http_response(response).unwrap();
    assert_eq!(parsed.status, 200);
    assert_eq!(parsed.body, b"hello");
}

#[test]
fn test_should_read_chunks_of_any_size() {
    assert_eq!(decode_chunked_body(b"A;x=y\r\n0123456789\r\n1\r\n!\r\n0\r\n").unwrap(), b"0123456789!");
    assert_eq!(decode_chunked_body(b"0\r\ntrailer").unwrap(), b"");
    let refused = |body: &[u8]| decode_chunked_body(body).unwrap_err();
    assert_eq!(refused(b"5"), HttpError::ChunkSizeMissing);
    assert_eq!(refused(b"\xff\r\n"), HttpError::ChunkSizeNotUtf8);
    assert_eq!(refused(b"x\r\n"), HttpError::ChunkSizeInvalid);
    assert_eq!(refused(b"ffffffffffffffff\r\n"), HttpError::ChunkTooLong);
    assert_eq!(refused(b"5\r\nhell"), HttpError::ChunkTruncated);
    assert_eq!(refused(b"5\r\nhello!!0\r\n"), HttpError::ChunkNotTerminated);
}

#[test]
fn test_should_refuse_what_is_no_response() {
    let refused = |response: &[u8]| parse_http_response(response).unwrap_err();
    assert_eq!(refused(b"HTTP/1.1 200 OK"), HttpError::HeadersMissing);
    assert_eq!(refused(b"\xff\r\n\r\n"), HttpError::HeadersInvalid);
    assert_eq!(refused(b"\r\n\r\n"), HttpError::StatusLineMissing);
    assert_eq!(refused(b" \r\n\r\n"), HttpError::VersionMissing);
    assert_eq!(refused(b"FTP 200\r\n\r\n"), HttpError::VersionInvalid);
    assert_eq!(refused(b"HTTP/1.1\r\n\r\n"), HttpError::StatusMissing);
    assert_eq!(refused(b"HTTP/1.1 abc\r\n\r\n"), HttpError::StatusInvalid);
}

#[test]
fn test_should_answer_by_status() {
    assert_eq!(response_text(b"HTTP/1.1 204 x\r\n\r\nbody").unwrap(), "body");
    assert_eq!(
        response_text(b"HTTP/1.1 403 x\r\n\r\nno").unwrap_err(),
        ApiCallError::Refused { status: 403, body: b"no".to_vec() }
    );
    assert_eq!(
        response_text(b"HTTP/1.1 200 x\r\n\r\n\xff").unwrap_err(),
        ApiCallError::BodyNotUtf8
    );
    assert_eq!(
        response_text(b"x").unwrap_err(),
        ApiCallError::Http(HttpError::HeadersMissing)
    );
}

#[test]
fn test_should_write_requests() {
    assert_eq!(request_target("/a", Some("b=c")), "/a?b=c");
    assert_eq!(request_target("/a", None), "/a");
    assert_eq!(
        post_request("/a", "h:1", "{\u{e9}}"),
        "POST /a HTTP/1.1\r\nHost: h:1\r\nContent-Type: application/json\r\nContent-Length: 4\r\nConnection: close\r\n\r\n{\u{e9}}"
    );
}

#[test]
fn test_should_cap_responses() {
    let mut output = vec![0; 1_048_575];
    assert!(extend_response(&mut output, b"x").is_ok());
    assert_eq!(extend_response(&mut output, b"x"), Err(HttpError::ResponseTooLong));
    assert_eq!(output.len(), 1_048_576);
}

#[test]
fn test_should_parse_stty_size() {
    let size = parse_stty_size("48 160").unwrap();
    assert_eq!(size.rows.get(), 48);
    assert_eq!(size.cols.get(), 160);
    assert_eq!(read_stty_size(b"48 160\n".to_vec()).unwrap(), size);
}

#[test]
fn test_should_reject_invalid_stty_size() {
    assert!(parse_stty_size("").is_err());
    assert!(parse_stty_size("48").is_err());
    assert!(parse_stty_size("48 160 extra").is_err());
    assert!(parse_stty_size("4 160").is_err());
    assert_eq!(parse_stty_size("x 160"), Err(SttyError::RowsInvalid));
    assert_eq!(parse_stty_size("48 x"), Err(SttyError::ColumnsInvalid));
    assert_eq!(read_stty_size(vec![0xff]), Err(SttyError::SizeNotUtf8));
}

#[test]
fn test_should_read_terminal_state() {
    assert_eq!(parse_stty_state(b" 500:5:bf \n".to_vec()).unwrap(), "500:5:bf");
    assert_eq!(parse_stty_state(b"\n".to_vec()), Err(SttyError::StateInvalid));
    assert_eq!(parse_stty_state(vec![b'x'; 1025]), Err(SttyError::StateInvalid));
    assert_eq!(parse_stty_state(vec![0xff]), Err(SttyError::StateNotUtf8));
}

#[test]
fn test_should_refuse_a_chunked_body_that_is_cut_short() {
    let body = b"3\r\na\r\n\r\n1\r\n!\r\n0\r\n";
    assert_eq!(decode_chunked_body(body).unwrap(), b"a\r\n!");
    for end in 0..body.len() {
        assert!(decode_chunked_body(&body[..end]).is_err());
    }
}

#[test]
fn test_should_name_the_host_of_a_server() {
    let domain = ApiHost::Domain("example.test".to_owned());
    let v4 = ApiHost::Ipv4([127, 0, 0, 1]);
    let v6 = ApiHost::Ipv6("::1".to_owned());
    assert_eq!(connect_host(&domain), "example.test");
    assert_eq!(connect_host(&v4), "127.0.0.1");
    assert_eq!(connect_host(&v6), "::1");
    assert_eq!(host_header(&domain, 80), "example.test:80");
    assert_eq!(host_header(&v4, 8080), "127.0.0.1:8080");
    assert_eq!(host_header(&v6, 443), "[::1]:443");
}

#[test]
fn test_should_stop_a_session_that_exists() {
    let stop = SessionStop {
        backend: CliBackend::Rmux,
        session: name("TerminalUse-a"),
        requested: name("a"),
    };
    assert_eq!(stop.checked(true), StopStep::Kill);
    assert_eq!(
        stop.finished(true),
        StopStep::Report(
            "killed rmux session TerminalUse-a for requested session a\n".to_owned()
        )
    );
    let gone = StopStep::Report(
        "requested session a resolved to TerminalUse-a; backend session was already gone\n"
            .to_owned(),
    );
    assert_eq!(stop.checked(false), gone);
    assert_eq!(stop.finished(false), gone);
}

#[test]
fn test_should_name_the_token_variable_in_failures() {
    let unset = CliError::TokenUnset;
    assert_eq!(
        unset.attach_message(Some("TOKEN")),
        "failed to read access token from $TOKEN"
    );
    assert_eq!(
        CliError::TokenValue.attach_message(Some("TOKEN")),
        "invalid access token in $TOKEN"
    );
    assert_eq!(CliError::FontSize.attach_message(Some("TOKEN")), "font size must be in 12..=96");
}

#[test]
fn test_should_quote_what_is_no_terminal_size() {
    let failed = |cols, rows| terminal_size_from_values(cols, rows).unwrap_err().message();
    assert_eq!(failed("wide", "24"), "invalid terminal columns value \"wide\"");
    assert_eq!(failed("80", "a\"\n"), "invalid terminal rows value \"a\\\"\\n\"");
    assert_eq!(failed("65536", "x"), "invalid terminal columns value \"65536\"");
    assert_eq!(failed("0", "24"), "terminal size is invalid");
}

#[test]
fn test_should_find_the_place_of_an_endpoint() {
    let place = |url: &str| endpoint_target(&parse_http_url(url).unwrap()).unwrap();
    let domain = place("http://Example.test/p%20q/?a=b");
    assert_eq!(domain.host, ApiHost::Domain("example.test".to_owned()));
    assert_eq!(domain.port, 80);
    assert_eq!(domain.target, "/p%20q/?a=b");
    assert_eq!(place("http://0x7f.1:8080").host, ApiHost::Ipv4([127, 0, 0, 1]));
    let mapped = place("http://[::FFFF:1.2.3.4]:81/x");
    assert_eq!(mapped.host, ApiHost::Ipv6("::ffff:1.2.3.4".to_owned()));
    assert_eq!(mapped.port, 81);
    assert_eq!(host_header(&mapped.host, mapped.port), "[::ffff:1.2.3.4]:81");

    let mut url = parse_http_url("http://example.test/").unwrap();
    assert_eq!(target_with_host(None, &url), Err(TargetError::HostMissing));
    url.port = None;
    assert_eq!(endpoint_target(&url), Err(TargetError::PortMissing));
    assert_eq!(TargetError::HostMissing.message(), "API URL missing host");
    assert_eq!(TargetError::PortMissing.message(), "API URL missing port");
}

#[test]
fn test_should_drop_the_query_of_a_base_url() {
    let token = AccessToken::from_bytes([0; 32]);
    let url = api_endpoint_url("http://h:1/a%7B//?x=y", &name("s"), "lock", &token).unwrap();
    let zeros = "0".repeat(64);
    assert_eq!(url, format!("http://h:1/a%7B/api/sessions/s/lock?token={zeros}"));
}

#[test]
fn test_should_measure_paths() {
    assert_eq!(room_of_path("/a/b"), 4);
    assert_eq!(room_of_path("a"), 2);
    assert_eq!(room_of_path(""), 1);
    assert_eq!(room_of_path("/ \u{e9}?%20\t\\"), 1 + 3 + 6 + 3 + 3 + 1);
}

#[test]
fn test_should_attach_with_the_token_that_was_drawn() {
    let token = || AccessToken::from_bytes([7; 32]);
    let drawn = exposure_with_token(WebExposure::Local, Ok(token()));
    assert!(matches!(drawn, Ok((WebExposure::Local, drawn)) if drawn.as_bytes() == &[7; 32]));
    let failed = exposure_with_token(
        WebExposure::Local,
        Err(ProtocolError::TokenGenerationFailed),
    );
    assert!(matches!(failed, Err(CliError::TokenGeneration)));

    let args = session_attach_args();
    let config =
        ValidatedSessionAttachConfig::from_parts(args, None, WebExposure::Local, token());
    assert!(matches!(config, Ok(config) if config.token.as_bytes() == &[7; 32]));
    let mut args = session_attach_args();
    args.session_id = "no name".to_owned();
    let refused =
        ValidatedSessionAttachConfig::from_parts(args, None, WebExposure::Local, token());
    assert!(matches!(refused, Err(CliError::SessionId)));
}
