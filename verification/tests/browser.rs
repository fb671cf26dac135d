use ozon_research::broker::{
    broker_failure, check_tool_name, forward_failure, handle_request, make_call, may_accept,
    read_answer, read_frame_head, read_mode, write_frame, BrokerFault, BrokerRequest,
    BrokerResponse, Handling, Mode, MAX_REQUEST_BYTES,
};
use ozon_research::browser::{
    accept_marker, advance_close, advance_recovery, after_close, check_launch, check_profile,
    daemon_request, driver_args, ensure_step, is_close_confirmed, is_headed, is_known_driver,
    make_marker, mark_closing, read_cdp, read_daemon_reply, read_marker_text, read_reply,
    read_session_facts, read_user_agent,
    start_close, start_if_running, start_recovery, start_shutdown, validate_cdp_endpoint, Closing,
    CloseStep, EnsureStep, ProfileIdentity, RecoveryStep, SessionState,
};
use ozon_research::browser_error::{requires_reset, BrowserError};
use ozon_research::failure::Failure;
use ozon_research::files::{
    check_ancestor, check_broker_lock, check_browser_directory, check_browser_parent,
    check_component, check_existing, check_lease, check_root, check_socket_path, is_driver_file,
    is_private_runtime, validate_socket, verify_peer, FileFacts,
};
use ozon_research::json::Json;
use ozon_research::processes::{
    contains_complete_argument, daemon_has_no_profile_descendants, daemon_owns_profile,
    is_descendant, list_has_profile, process_list, read_pid,
};

fn json(text: &str) -> Json {
    Json::parse(text).unwrap()
}

#[test]
fn retry_is_narrower_than_reset() {
    let command = BrowserError::CommandFailed { command: "eval".to_owned() };
    assert!(command.should_retry());
    assert!(requires_reset(&Failure::Browser(command)));

    let timeout = BrowserError::CommandTimeout;
    assert!(!timeout.should_retry());
    assert!(requires_reset(&Failure::Browser(timeout)));

    let cancelled = BrowserError::Cancelled;
    assert!(!cancelled.should_retry());
    assert!(requires_reset(&Failure::Browser(cancelled)));

    assert!(!requires_reset(&Failure::new("ordinary parse error")));
}

#[test]
fn browser_failures_have_their_messages() {
    let shown = |e: BrowserError| Failure::Browser(e).message();
    assert_eq!(
        shown(BrowserError::CommandFailed { command: "open".to_owned() }),
        "BROWSER_COMMAND_FAILED: agent-browser open failed"
    );
    assert_eq!(
        shown(BrowserError::DriverFailure { operation: "stdin write".to_owned() }),
        "BROWSER_DRIVER_FAILED: agent-browser stdin write failed"
    );
    assert_eq!(shown(BrowserError::HttpStatus(503)), "Ozon returned HTTP 503");
    assert_eq!(shown(BrowserError::InvalidOrigin), "SOURCE_CHANGED: Ozon page has an unexpected origin");
}

#[test]
fn cdp_identity_requires_literal_loopback_browser_endpoint() {
    assert!(validate_cdp_endpoint("ws://127.0.0.1:9222/devtools/browser/id").is_ok());
    assert!(validate_cdp_endpoint("ws://[::1]:9222/devtools/browser/id").is_ok());
    assert!(validate_cdp_endpoint("ws://localhost:9222/devtools/browser/id").is_err());
    assert!(validate_cdp_endpoint("ws://192.0.2.1:9222/devtools/browser/id").is_err());
    assert!(validate_cdp_endpoint("ws://127.0.0.1:9222/devtools/page/id").is_err());
}

#[test]
fn cdp_endpoints_carry_nothing_else() {
    for endpoint in [
        "ws://127.0.0.1/devtools/browser/id",
        "wss://127.0.0.1:9222/devtools/browser/id",
        "ws://user@127.0.0.1:9222/devtools/browser/id",
        "ws://127.0.0.1:9222/devtools/browser/id?x=1",
        "ws://127.0.0.1:9222/devtools/browser/id#x",
        "not a url",
    ] {
        assert_eq!(
            validate_cdp_endpoint(endpoint).unwrap_err().message(),
            "BROWSER_DRIVER_FAILED: agent-browser CDP endpoint validation failed"
        );
    }
    assert!(validate_cdp_endpoint("ws://127.1.2.3:1/devtools/browser/").is_ok());
}

#[test]
fn driver_replies_are_taken_only_when_they_succeed() {
    let ok = || Some(json(r#"{"success":true,"data":{"url":"x"}}"#));
    assert_eq!(read_reply(true, ok(), "open").unwrap().to_text(), r#"{"url":"x"}"#);
    assert_eq!(
        read_reply(false, ok(), "open").unwrap_err().message(),
        "BROWSER_COMMAND_FAILED: agent-browser open failed"
    );
    assert!(read_reply(true, Some(json(r#"{"success":"true"}"#)), "open").is_err());
    assert_eq!(
        read_reply(true, None, "open").unwrap_err().message(),
        "INVALID_RESPONSE: invalid browser page outcome"
    );
    let endpoint = "ws://127.0.0.1:9222/devtools/browser/id";
    for key in ["url", "value", "cdpUrl"] {
        let data = json(&format!(r#"{{"{key}":"{endpoint}"}}"#));
        assert_eq!(read_cdp(&data).unwrap(), endpoint);
    }
    assert_eq!(
        read_cdp(&json("{}")).unwrap_err().message(),
        "BROWSER_DRIVER_FAILED: agent-browser CDP endpoint discovery failed"
    );
    assert!(read_cdp(&json(r#"{"url":"http://127.0.0.1:9222/"}"#)).is_err());
}

#[test]
fn user_agents_lose_their_headless_mark() {
    assert_eq!(
        read_user_agent(&Json::text("A HeadlessChrome/1 HeadlessChrome/2 B")).unwrap(),
        "A Chrome/1 Chrome/2 B"
    );
    assert_eq!(read_user_agent(&Json::text("plain")).unwrap(), "plain");
    assert!(read_user_agent(&Json::Null).is_err());
}

#[test]
fn restore_command_never_invokes_the_driver_from_idle_or_poisoned() {
    assert!(matches!(start_if_running(&SessionState::Idle), Ok(None)));
    assert!(matches!(
        start_if_running(&SessionState::Poisoned),
        Err(Failure::Browser(BrowserError::SessionPoisoned))
    ));
    let running = SessionState::Running { cdp: "ws://x".to_owned() };
    assert_eq!(start_if_running(&running).unwrap().unwrap(), "ws://x");
}

#[test]
fn cleanup_failure_poisons_session_and_blocks_further_driver_work() {
    assert!(matches!(start_shutdown(&SessionState::Acquiring), Ok(Closing::Unknown)));
    let (state, result) = after_close(false);
    assert!(matches!(result, Err(Failure::Browser(BrowserError::CleanupFailed))));
    assert!(matches!(state, SessionState::Poisoned));
    assert_eq!(ensure_step(&state), EnsureStep::Recover);
    assert!(matches!(
        check_launch(&state, false),
        Err(Failure::Browser(BrowserError::SessionPoisoned))
    ));
    assert!(matches!(
        start_shutdown(&state),
        Err(Failure::Browser(BrowserError::SessionPoisoned))
    ));
    let (state, result) = after_close(true);
    assert!(result.is_ok());
    assert!(matches!(state, SessionState::Idle));
    assert!(check_launch(&state, false).is_ok());
    assert!(matches!(
        check_launch(&state, true),
        Err(Failure::Browser(BrowserError::Cancelled))
    ));
    assert!(matches!(start_shutdown(&state), Ok(Closing::Nothing)));
}

#[test]
fn closes_follow_the_marker() {
    let endpoint = "ws://127.0.0.1:9222/devtools/browser/id";
    assert_eq!(start_close(None, false), CloseStep::Finished { closed: false });
    assert_eq!(start_close(None, true), CloseStep::CloseMatching);
    assert_eq!(start_close(Some("http://x/"), true), CloseStep::Finished { closed: false });
    assert_eq!(start_close(Some(endpoint), false), CloseStep::CloseEndpoint { daemon: None });
    let step = start_close(Some(endpoint), true);
    assert_eq!(step, CloseStep::Prepare);
    let step = advance_close(step, true, true, Some(7));
    assert_eq!(step, CloseStep::CloseEndpoint { daemon: Some(7) });
    let step = advance_close(step, true, true, None);
    assert_eq!(step, CloseStep::ConfirmAbsent { daemon: 7 });
    let step = advance_close(step, true, false, None);
    assert_eq!(step, CloseStep::CloseRecorded { daemon: 7 });
    assert_eq!(advance_close(step, true, true, None), CloseStep::Finished { closed: true });
    assert_eq!(
        advance_close(CloseStep::Prepare, true, true, None),
        CloseStep::Finished { closed: false }
    );
}

fn profile() -> ProfileIdentity {
    ProfileIdentity { path: "/p".to_owned(), dev: 1, ino: 2 }
}

#[test]
fn markers_bind_their_profile() {
    let endpoint = "ws://127.0.0.1:9222/devtools/browser/id";
    let marker = make_marker(9, Some(endpoint), profile(), None).unwrap();
    let text = marker.to_text();
    assert_eq!(
        text,
        r#"{"cdp":"ws://127.0.0.1:9222/devtools/browser/id","closingDaemonPid":null,"pid":9,"profile":{"dev":1,"ino":2,"path":"/p"},"version":2}"#
    );
    let back = accept_marker(read_marker_text(&text), &profile()).unwrap();
    assert_eq!((back.version, back.pid, back.cdp.as_deref()), (2, 9, Some(endpoint)));
    let other = ProfileIdentity { path: "/p".to_owned(), dev: 1, ino: 3 };
    assert_eq!(
        accept_marker(read_marker_text(&text), &other).unwrap_err().message(),
        "BROWSER_CLEANUP_FAILED: browser profile identity changed"
    );
    assert!(make_marker(9, Some("ws://localhost:1/devtools/browser/x"), profile(), None).is_err());
    let closing = mark_closing(Some(back), 77, 10, profile()).unwrap();
    assert_eq!((closing.pid, closing.closing_daemon_pid), (10, Some(77)));
    let again = Some(closing);
    assert_eq!(start_recovery(&again).unwrap(), RecoveryStep::ConfirmAbsent { daemon: 77 });
    assert_eq!(
        mark_closing(again, 1, 10, profile()).unwrap_err().message(),
        "BROWSER_CLEANUP_FAILED: invalid browser daemon identity"
    );
    assert!(matches!(
        mark_closing(None, 77, 10, profile()),
        Err(Failure::Browser(BrowserError::CleanupFailed))
    ));
    for (text, message) in [
        ("{}", "BROWSER_CLEANUP_FAILED: invalid browser ownership marker"),
        (r#"{"version":3,"pid":1}"#, "BROWSER_CLEANUP_FAILED: unsupported browser ownership marker"),
        (r#"{"version":2,"pid":1}"#, "BROWSER_CLEANUP_FAILED: browser profile identity changed"),
        (
            r#"{"version":1,"pid":1,"cdp":"http://x/"}"#,
            "BROWSER_DRIVER_FAILED: agent-browser CDP endpoint validation failed",
        ),
    ] {
        assert_eq!(accept_marker(read_marker_text(text), &profile()).unwrap_err().message(), message);
    }
    assert!(accept_marker(None, &profile()).is_err());
    assert!(accept_marker(read_marker_text(r#"{"version":1,"pid":1,"cdp":null}"#), &profile()).is_ok());
}

#[test]
fn recovery_tries_the_noted_daemon_first() {
    assert!(matches!(
        start_recovery(&None),
        Err(Failure::Browser(BrowserError::SessionPoisoned))
    ));
    let step = RecoveryStep::ConfirmAbsent { daemon: 5 };
    assert_eq!(advance_recovery(step, true), RecoveryStep::Recovered);
    let step = advance_recovery(step, false);
    assert_eq!(step, RecoveryStep::CloseRecorded { daemon: 5 });
    assert_eq!(advance_recovery(step, true), RecoveryStep::Recovered);
    assert_eq!(advance_recovery(step, false), RecoveryStep::CloseBrowser);
}

#[test]
fn daemon_replies_must_be_their_own() {
    let reply = json(
        r#"{"id":"a","success":true,"data":{"backgroundPid":7,"browserLaunched":true,"pageCount":2}}"#,
    );
    assert_eq!(read_session_facts(&reply, "a", 7, u64::MAX), Some((true, 2)));
    assert_eq!(read_session_facts(&reply, "b", 7, u64::MAX), None);
    assert_eq!(read_session_facts(&reply, "a", 8, u64::MAX), None);
    assert_eq!(read_session_facts(&reply, "a", 7, 1), None);
    let close = json(r#"{"id":"c","success":true,"data":{"closed":true}}"#);
    assert!(is_close_confirmed(&close, "c"));
    assert!(!is_close_confirmed(&close, "d"));
    assert!(!is_close_confirmed(&json(r#"{"id":"c","success":true,"data":{"closed":1}}"#), "c"));
    assert_eq!(daemon_request("c", "close").to_text(), r#"{"action":"close","id":"c"}"#);
}

#[test]
fn drivers_are_called_one_way() {
    assert!(is_known_driver(true, "agent-browser 0.36.0\n"));
    assert!(!is_known_driver(false, "agent-browser 0.36.0"));
    assert!(!is_known_driver(true, "agent-browser 0.36.1"));
    assert!(is_headed(Some(" False ")));
    assert!(!is_headed(Some("true")));
    assert!(!is_headed(None));
    let args = driver_args("/c", "/p", false, Some("/chrome"), Some("UA"));
    assert_eq!(args[..8], ["--config", "/c", "--session", "ozon", "--profile", "/p", "--headed", "false"]);
    assert_eq!(args[args.len() - 4..], ["--executable-path", "/chrome", "--user-agent", "UA"]);
    assert_eq!(driver_args("/c", "/p", true, None, None).len(), 14);
}

const LIST: &str = "  10   1 daemon\n 11 10 chrome --user-data-dir=/p --x\n\n12 11 helper --type=gpu\n13 1 other --user-data-dir /q\n";

#[test]
fn process_lists_are_read_whole_or_not_at_all() {
    let list = process_list(LIST.as_bytes()).unwrap();
    assert_eq!(list.len(), 4);
    assert_eq!((list[1].pid, list[1].ppid), (11, 10));
    assert_eq!(list[1].command, b"chrome --user-data-dir=/p --x");
    assert!(is_descendant(12, 10, &list));
    assert!(!is_descendant(13, 10, &list));
    assert!(!is_descendant(10, 10, &list));
    assert!(process_list(b"x y z\n").is_none());
    assert!(process_list(b"99999999999 1 z\n").is_none());
    assert_eq!(process_list(b"").unwrap().len(), 0);
}

#[test]
fn profiles_are_matched_as_whole_arguments() {
    assert!(contains_complete_argument(b"a --user-data-dir=/p", b"--user-data-dir=/p"));
    assert!(!contains_complete_argument(b"a --user-data-dir=/p2", b"--user-data-dir=/p"));
    assert!(!contains_complete_argument(b"a x--user-data-dir=/p", b"--user-data-dir=/p"));
    assert_eq!(list_has_profile(LIST.as_bytes(), b"/p"), Some(true));
    assert_eq!(list_has_profile(LIST.as_bytes(), b"/q"), Some(true));
    assert_eq!(list_has_profile(LIST.as_bytes(), b"/r"), Some(false));
    assert_eq!(list_has_profile(LIST.as_bytes(), b"/r\n"), None);
    assert!(daemon_owns_profile(LIST.as_bytes(), 10, b"/p", true, 1));
    assert!(!daemon_owns_profile(LIST.as_bytes(), 10, b"/q", true, 1));
    assert!(!daemon_owns_profile(LIST.as_bytes(), 10, b"/p", false, 0));
    assert!(daemon_owns_profile(LIST.as_bytes(), 12, b"/p", false, 0));
    assert!(!daemon_owns_profile(LIST.as_bytes(), 12, b"/p", false, 1));
    assert!(!daemon_has_no_profile_descendants(LIST.as_bytes(), 10));
    assert!(daemon_has_no_profile_descendants(LIST.as_bytes(), 11));
}

#[test]
fn process_numbers_are_above_one() {
    assert_eq!(read_pid(" 77\n"), Some(77));
    assert_eq!(read_pid("1"), None);
    assert_eq!(read_pid("4294967296"), None);
    assert_eq!(read_pid("x"), None);
}

fn directory(mode: u32) -> FileFacts {
    FileFacts {
        symlink: false,
        file: false,
        directory: true,
        socket: false,
        uid: 5,
        mode,
        size: 0,
        device: 1,
        inode: 2,
    }
}

#[test]
fn rejects_public_or_symlinked_root() {
    assert!(check_root(&directory(0o40700), 5).is_ok());
    assert_eq!(
        check_root(&directory(0o40755), 5).unwrap_err().message(),
        "INVALID_ARGUMENT: data directory must have owner-only permissions (0700)"
    );
    let link = FileFacts { symlink: true, ..directory(0o120777) };
    assert_eq!(
        check_root(&link, 5).unwrap_err().message(),
        "INVALID_ARGUMENT: data directory must not be a symbolic link"
    );
    assert_eq!(
        check_root(&directory(0o40700), 6).unwrap_err().message(),
        "INVALID_ARGUMENT: data directory is owned by another OS user"
    );
    let file = FileFacts { directory: false, file: true, ..directory(0o100600) };
    assert_eq!(
        check_root(&file, 5).unwrap_err().message(),
        "INVALID_ARGUMENT: data directory is not a directory"
    );
    assert!(check_ancestor(&directory(0o40755), 5).is_ok());
    assert!(check_ancestor(&link, 5).is_err());
    assert_eq!(
        check_component(&link, true, "browser profile").unwrap_err().message(),
        "INVALID_ARGUMENT: browser profile path contains a symbolic link"
    );
    let system = FileFacts { uid: 0, ..link };
    assert!(check_component(&system, false, "browser profile").is_ok());
    assert!(check_component(&system, true, "browser profile").is_err());
    assert_eq!(
        check_existing(&link, 5, "broker socket").unwrap_err().message(),
        "INVALID_ARGUMENT: broker socket path must not be a symbolic link"
    );
}

#[test]
fn profile_lease_rejects_non_private_existing_directory() {
    assert!(check_browser_directory(&directory(0o40700), 5).is_ok());
    assert_eq!(
        check_browser_directory(&directory(0o40755), 5).unwrap_err().message(),
        "profile directory must be owner-only (0700)"
    );
    assert!(check_browser_parent(&directory(0o40755), 5).is_ok());
    assert!(check_browser_parent(&directory(0o40775), 5).is_err());
    assert!(check_browser_parent(&directory(0o40757), 5).is_err());
    let moved = FileFacts { inode: 3, ..directory(0o40700) };
    assert!(check_lease(&directory(0o40700), &directory(0o40700), 5).is_ok());
    assert!(check_lease(&directory(0o40700), &moved, 5).is_err());
    assert!(check_profile(&directory(0o40700), 5, true).is_ok());
    assert!(check_profile(&directory(0o40700), 5, false).is_err());
    assert!(is_private_runtime(&directory(0o40700), 5));
    assert!(!is_private_runtime(&directory(0o40711), 5));
}

#[test]
fn sockets_and_locks_are_the_owners_alone() {
    let socket = FileFacts { directory: false, socket: true, ..directory(0o140600) };
    assert!(validate_socket(&socket, 5).is_ok());
    assert_eq!(
        validate_socket(&FileFacts { mode: 0o140666, ..socket }, 5).unwrap_err().message(),
        "INVALID_ARGUMENT: broker socket permissions must be 0600"
    );
    assert!(check_socket_path(&FileFacts { mode: 0o140666, ..socket }, 5).is_ok());
    assert!(check_socket_path(&directory(0o40700), 5).is_err());
    assert!(validate_socket(&socket, 6).is_err());
    let lock = FileFacts { directory: false, file: true, ..directory(0o100600) };
    assert!(check_broker_lock(&lock, &lock, &directory(0o40700)).is_ok());
    assert!(check_broker_lock(&lock, &FileFacts { inode: 9, ..lock }, &directory(0o40700)).is_err());
    assert!(verify_peer(5, 5).is_ok());
    assert!(verify_peer(5, 6).is_err());
    assert!(is_driver_file(&FileFacts { size: 16, ..lock }, 5, 16));
    assert!(!is_driver_file(&FileFacts { size: 17, ..lock }, 5, 16));
    assert!(!is_driver_file(&FileFacts { mode: 0o100620, ..lock }, 5, 16));
}

#[test]
fn oversized_frame_is_rejected_before_body_read() {
    let head = ((MAX_REQUEST_BYTES + 1) as u32).to_be_bytes();
    assert_eq!(
        read_frame_head(&head, MAX_REQUEST_BYTES).unwrap_err().message(),
        "INVALID_ARGUMENT: broker frame exceeds 131072 bytes"
    );
    assert!(write_frame(&[0; 5], 4).is_err());
}

#[test]
fn framed_round_trip_preserves_request() {
    for size in [0usize, 1, 255, 256, 65_536, 70_000] {
        let body: Vec<u8> = (0..size).map(|i| (i % 251) as u8).collect();
        let frame = write_frame(&body, MAX_REQUEST_BYTES).unwrap();
        assert_eq!(frame[..4], (size as u32).to_be_bytes());
        assert_eq!(read_frame_head(&frame[..4], MAX_REQUEST_BYTES).unwrap(), size);
        assert_eq!(&frame[4..], body);
    }
}

#[test]
fn broker_requests_are_answered_by_their_version() {
    let answer = handle_request(BrokerRequest::Ping { version: 1 });
    assert!(matches!(answer, Handling::Answer(BrokerResponse::Pong { version: 1 })));
    let refused = |h: Handling| match h {
        Handling::Answer(BrokerResponse::Error { version: 1, message }) => message,
        _ => panic!(),
    };
    assert_eq!(
        refused(handle_request(BrokerRequest::Ping { version: 2 })),
        "SOURCE_CHANGED: incompatible broker protocol version"
    );
    let call = |version, name: &str| BrokerRequest::Call {
        version,
        name: name.to_owned(),
        args: Json::object(),
    };
    assert_eq!(
        refused(handle_request(call(2, "x"))),
        "SOURCE_CHANGED: incompatible broker protocol version"
    );
    assert_eq!(refused(handle_request(call(1, ""))), "INVALID_ARGUMENT: invalid tool name");
    assert!(matches!(handle_request(call(1, "x")), Handling::Call { .. }));
    assert!(check_tool_name(&"x".repeat(128)).is_ok());
    assert!(check_tool_name(&"x".repeat(129)).is_err());
    assert!(make_call("", Json::object()).is_err());
    assert!(make_call("x", Json::object()).is_ok());
    assert_eq!(
        read_answer(BrokerResponse::Pong { version: 1 }).unwrap_err().message(),
        "SOURCE_CHANGED: broker returned an unexpected response"
    );
    let error = |version| BrokerResponse::Error { version, message: "NOT_FOUND: x".to_owned() };
    assert_eq!(read_answer(error(1)).unwrap_err().message(), "NOT_FOUND: x");
    assert_eq!(
        read_answer(error(2)).unwrap_err().message(),
        "SOURCE_CHANGED: incompatible broker protocol version"
    );
    assert!(may_accept(31));
    assert!(!may_accept(32));
}

#[test]
fn frontends_report_what_the_broker_failed_with() {
    let reply = forward_failure(&broker_failure(BrokerFault::ResponseTimedOut));
    assert!(reply.error);
    let text = json(reply.text.as_deref().unwrap());
    let shown = text.to_text();
    assert!(shown.contains("SERVER_BUSY"));
    assert_eq!(
        broker_failure(BrokerFault::Malformed).message(),
        "INVALID_ARGUMENT: malformed broker JSON"
    );
}

#[test]
fn programs_know_their_arguments() {
    let mode = |args: &[&str]| read_mode(&args.iter().map(|s| s.to_string()).collect());
    assert_eq!(mode(&[]), Some(Mode::Frontend));
    assert_eq!(mode(&["--version"]), Some(Mode::Version));
    assert_eq!(mode(&["--help"]), Some(Mode::Help));
    assert_eq!(mode(&["--broker"]), Some(Mode::Broker));
    assert_eq!(mode(&["--broker", "--help"]), None);
    assert_eq!(mode(&["x"]), None);
}

#[test]
fn fields_that_are_named_twice_are_refused() {
    for text in [
        r#"{"version":1,"version":1,"pid":1,"cdp":null}"#,
        r#"{"version":1,"pid":1,"cdp":null,"c\u0064p":null}"#,
        r#"{"version":2,"pid":1,"cdp":null,"profile":{"path":"/p","dev":1,"dev":1,"ino":2}}"#,
    ] {
        assert!(Json::parse(text).is_some(), "{text}");
        assert!(read_marker_text(text).is_none(), "{text}");
    }
    for text in [
        r#"{"version":1,"pid":1,"cdp":null,"other":1,"other":2}"#,
        r#" { "version" : 1 , "pid" : 1 , "cdp" : "ws://[::1]:1/{,:}" } "#,
        r#"{"version":1,"pid":1,"cdp":null,"other":{"pid":1,"pid":2}}"#,
    ] {
        assert!(read_marker_text(text).is_some(), "{text}");
    }
    let facts = r#"{"id":"a","success":true,"data":{"backgroundPid":7,"browserLaunched":true,"pageCount":2}}"#;
    let reply = read_daemon_reply(facts, false).unwrap();
    assert_eq!(read_session_facts(&reply, "a", 7, 9), Some((true, 2)));
    let listed = read_daemon_reply(r#"["a",true,[7,true,2]]"#, false).unwrap();
    assert_eq!(read_session_facts(&listed, "a", 7, 9), Some((true, 2)));
    assert!(read_daemon_reply(r#"{"id":"a","id":"a","success":true,"data":{}}"#, false).is_none());
    let twice = r#"{"id":"c","success":true,"data":{"closed":false,"closed":true}}"#;
    assert!(read_daemon_reply(twice, true).is_none());
    assert!(read_daemon_reply(twice, false).is_some());
}

#[test]
fn members_that_are_no_fields_are_passed_over() {
    let deep = format!("{}{}", "[".repeat(200), "]".repeat(200));
    for skipped in [deep.as_str(), "1e999", r#"{"a":"\ud800"}"#] {
        let marker = format!(
            r#"{{"other":{skipped},"version":2,"pid":1,"cdp":null,"profile":{{"path":"/p","x":{skipped},"dev":1,"ino":2}}}}"#
        );
        assert!(Json::parse(&marker).is_none());
        assert!(read_marker_text(&marker).is_some(), "{marker}");
        assert!(read_marker_text(&marker.replace("\"pid\":1", "\"pid\":1e999")).is_none());
        assert!(read_marker_text(&marker.replace("\"dev\":1,", "\"dev\":1,\"dev\":1,")).is_none());
        let listed = format!(r#"[2,1,null,{{"path":"/p","x":{skipped},"dev":1,"ino":2}}]"#);
        assert!(read_marker_text(&listed).is_some(), "{listed}");
        assert!(read_marker_text(&format!("[1,1,null,null,null,{skipped}]")).is_none());
        let facts = format!(
            r#"{{"id":"a","success":true,"x":{skipped},"data":{{"backgroundPid":7,"browserLaunched":true,"pageCount":2,"y":{skipped}}}}}"#
        );
        let reply = read_daemon_reply(&facts, false).unwrap();
        assert_eq!(read_session_facts(&reply, "a", 7, 9), Some((true, 2)));
        assert!(read_daemon_reply(&facts[1..], false).is_none());
    }
}
