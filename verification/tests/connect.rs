use capsule::connect::{
    after_connect, after_session, format_tab_response, is_socket_error, parse_env_meta, parse_i32, parse_shell_request, parse_uint,
    BuildIdNegotiation, IoErrorKind, RelayAction, RequestField, SessionEnd, ShellRequestError, ShellTabLineKind,
    MAX_RETRIES,
};

fn test_session_id() -> u64 {
    0x0011_2233_4455_6677
}

fn chars(s: &str) -> Vec<char> {
    s.chars().collect()
}

#[test]
fn test_parse_env_meta_empty() {
    assert!(parse_env_meta(b"").is_empty());
}

#[test]
fn test_parse_env_meta_no_equals_dropped() {
    let vars = parse_env_meta(b"MALFORMED");
    assert!(vars.is_empty());
}

#[test]
fn test_parse_env_meta_single() {
    let vars = parse_env_meta(b"PATH=/usr/bin:/usr/local/bin");
    assert_eq!(vars.len(), 1);
    assert_eq!(vars[0], ("PATH".to_owned(), "/usr/bin:/usr/local/bin".to_owned()));
}

#[test]
fn test_parse_env_meta_multiple() {
    let meta = b"PATH=/usr/bin\0HOME=/home/user";
    let vars = parse_env_meta(meta);
    assert_eq!(vars.len(), 2);
}

#[test]
fn env_meta_splits_at_first_equals_and_skips_bad_parts() {
    let vars = parse_env_meta(b"A=b=c\0NOEQ\0\0B=\0=v\0C=\xff");
    assert_eq!(
        vars,
        vec![("A".to_owned(), "b=c".to_owned()), ("B".to_owned(), String::new()), (String::new(), "v".to_owned())]
    );
}

#[test]
fn shell_request_basic_fields() {
    let line = b"42\t0\t1500\t/home/user\t120\tmain\tPATH=/usr/bin";
    let req = parse_shell_request(line, test_session_id()).expect("request parses");
    assert_eq!(req.session_id, test_session_id());
    assert_eq!(req.generation, 42);
    assert_eq!(req.last_exit_code, 0);
    assert_eq!(req.duration_ms, Some(1500));
    assert_eq!(req.cwd, "/home/user");
    assert_eq!(req.cols, 120);
    assert_eq!(req.keymap, "main");
    assert_eq!(req.env_vars, vec![("PATH".to_owned(), "/usr/bin".to_owned())]);
}

#[test]
fn shell_request_empty_duration() {
    let line = b"1\t127\t\t/tmp\t80\tmain\t";
    let req = parse_shell_request(line, test_session_id()).expect("request parses");
    assert_eq!(req.generation, 1);
    assert_eq!(req.last_exit_code, 127);
    assert_eq!(req.duration_ms, None);
    assert_eq!(req.cwd, "/tmp");
    assert!(req.env_vars.is_empty());
}

#[test]
fn test_parse_shell_request_multiple_env_vars() {
    let mut line = Vec::new();
    line.extend_from_slice(b"1\t0\t\t/tmp\t80\tmain\tPATH=/usr/bin");
    line.push(0);
    line.extend_from_slice(b"HOME=/home/user");
    let req = parse_shell_request(&line, test_session_id()).expect("request parses");
    assert_eq!(req.env_vars.len(), 2);
    assert_eq!(req.env_vars[0], ("PATH".to_owned(), "/usr/bin".to_owned()));
    assert_eq!(req.env_vars[1], ("HOME".to_owned(), "/home/user".to_owned()));
}

#[test]
fn test_parse_shell_request_negative_exit_code() {
    let line = b"1\t-1\t\t/tmp\t80\tmain\t";
    let req = parse_shell_request(line, test_session_id()).expect("request parses");
    assert_eq!(req.last_exit_code, -1);
}

#[test]
fn test_parse_shell_request_wrong_field_count() {
    let line = b"1\t0\t\t/tmp";
    let result = parse_shell_request(line, test_session_id());
    assert!(result.is_err());
    assert_eq!(result, Err(ShellRequestError::FieldCount(4)));
}

#[test]
fn shell_request_rejects_each_bad_field() {
    let sid = test_session_id();
    assert_eq!(
        parse_shell_request(b"x\t0\t\t/tmp\t80\tmain\t", sid),
        Err(ShellRequestError::Invalid(RequestField::Generation, "x".to_owned()))
    );
    assert_eq!(
        parse_shell_request(b"1\t2147483648\t\t/tmp\t80\tmain\t", sid),
        Err(ShellRequestError::Invalid(RequestField::LastExitCode, "2147483648".to_owned()))
    );
    assert_eq!(
        parse_shell_request(b"1\t0\t-5\t/tmp\t80\tmain\t", sid),
        Err(ShellRequestError::Invalid(RequestField::DurationMs, "-5".to_owned()))
    );
    assert_eq!(
        parse_shell_request(b"1\t0\t\t/t\xffmp\t80\tmain\t", sid),
        Err(ShellRequestError::NotUtf8(RequestField::Cwd))
    );
    assert_eq!(
        parse_shell_request(b"1\t0\t\t/tmp\t65536\tmain\t", sid),
        Err(ShellRequestError::Invalid(RequestField::Cols, "65536".to_owned()))
    );
    assert_eq!(
        parse_shell_request(b"1\t0\t\t/tmp\t80\t\xfe\t", sid),
        Err(ShellRequestError::NotUtf8(RequestField::Keymap))
    );
    assert_eq!(parse_shell_request(b"", sid), Err(ShellRequestError::FieldCount(1)));
}

#[test]
fn shell_request_extremes() {
    let req = parse_shell_request(b"18446744073709551615\t-2147483648\t+7\t\t65535\t\t", 0).expect("parses");
    assert_eq!(req.generation, u64::MAX);
    assert_eq!(req.last_exit_code, i32::MIN);
    assert_eq!(req.duration_ms, Some(7));
    assert_eq!(req.cwd, "");
    assert_eq!(req.cols, 65535);
    assert_eq!(req.keymap, "");
}

#[test]
fn field_names() {
    assert_eq!(RequestField::Generation.name(), "generation");
    assert_eq!(RequestField::DurationMs.name(), "duration_ms");
    assert_eq!(RequestField::Keymap.name(), "keymap");
}

#[test]
fn integer_parsing_matches_str_parse() {
    assert_eq!(parse_uint(&chars("0"), 10), Some(0));
    assert_eq!(parse_uint(&chars("+10"), 10), Some(10));
    assert_eq!(parse_uint(&chars("11"), 10), None);
    assert_eq!(parse_uint(&chars(""), 10), None);
    assert_eq!(parse_uint(&chars("+"), 10), None);
    assert_eq!(parse_uint(&chars("1a"), 10), None);
    assert_eq!(parse_i32(&chars("-0")), Some(0));
    assert_eq!(parse_i32(&chars("-2147483648")), Some(i32::MIN));
    assert_eq!(parse_i32(&chars("-2147483649")), None);
    assert_eq!(parse_i32(&chars("2147483647")), Some(i32::MAX));
    assert_eq!(parse_i32(&chars("-")), None);
}

#[test]
fn test_format_tab_response() {
    let mut buf = Vec::new();
    format_tab_response(&mut buf, ShellTabLineKind::RenderResult, 42, "~/project  main", "\u{276f}");
    assert_eq!(buf, b"R\t42\t~/project  main\t\xe2\x9d\xaf\n");
}

#[test]
fn test_format_tab_response_update() {
    let mut buf = Vec::new();
    format_tab_response(&mut buf, ShellTabLineKind::Update, 1, "info", "prompt");
    assert_eq!(buf, b"U\t1\tinfo\tprompt\n");
}

#[test]
fn tab_response_replaces_buffer_content() {
    let mut buf = b"stale".to_vec();
    format_tab_response(&mut buf, ShellTabLineKind::Update, 0, "", "");
    assert_eq!(buf, b"U\t0\t\t\n");
    assert_eq!(ShellTabLineKind::RenderResult.as_prefix(), b'R');
    assert_eq!(ShellTabLineKind::Update.as_prefix(), b'U');
}

#[test]
fn build_id_negotiation_outcomes() {
    let names = vec!["PATH".to_owned()];
    let ok = BuildIdNegotiation::Compatible { env_var_names: names.clone() };
    let bad = BuildIdNegotiation::Incompatible { env_var_names: vec![] };
    let unchecked = BuildIdNegotiation::Unchecked { env_var_names: names.clone() };
    assert!(!ok.needs_daemon_restart());
    assert!(bad.needs_daemon_restart());
    assert!(!unchecked.needs_daemon_restart());
    assert_eq!(ok.env_var_names(), &names);
    assert!(bad.env_var_names().is_empty());
}

#[test]
fn socket_errors_trigger_reconnect() {
    assert!(is_socket_error(IoErrorKind::BrokenPipe));
    assert!(is_socket_error(IoErrorKind::ConnectionReset));
    assert!(is_socket_error(IoErrorKind::ConnectionAborted));
    assert!(is_socket_error(IoErrorKind::NotConnected));
    assert!(!is_socket_error(IoErrorKind::Other));
}

#[test]
fn relay_retry_policy() {
    assert_eq!(after_connect(3, true), (RelayAction::Relay, 0));
    assert_eq!(after_connect(3, false), (RelayAction::Reconnect, 4));
    assert_eq!(after_connect(MAX_RETRIES, false), (RelayAction::Fail, MAX_RETRIES));
    assert_eq!(after_session(0, SessionEnd::ShellClosed), (RelayAction::Stop, 0));
    assert_eq!(after_session(0, SessionEnd::Failed(IoErrorKind::Other)), (RelayAction::Fail, 0));
    assert_eq!(after_session(0, SessionEnd::DaemonClosed), (RelayAction::Reconnect, 1));
    assert_eq!(after_session(8, SessionEnd::Failed(IoErrorKind::BrokenPipe)), (RelayAction::Reconnect, 9));
    assert_eq!(after_session(9, SessionEnd::Failed(IoErrorKind::ConnectionReset)), (RelayAction::Stop, 10));
}
