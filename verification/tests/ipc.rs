//! The pipe protocol: lines, versions and answers.

use giest::ipc::{
    check_request, check_server, check_version, framed, pipe_name, pipe_sddl, read_line_capped,
    Connect, ConnectStep, Failure, LineError, LineReader, LineState, OpenError, Response,
    SendError, PROTOCOL_VERSION,
};

#[test]
fn version_is_required_and_a_newer_one_is_refused() {
    assert!(check_request(r#"{"type":"list"}"#).unwrap_err().contains("version"));
    let e = check_request(r#"{"v":99,"type":"list"}"#).unwrap_err();
    assert!(e.contains("unsupported protocol version 99"), "{e}");
}

#[test]
fn line_reader_stops_at_newline_and_caps_size() {
    assert_eq!(read_line_capped(&[b"{\"a\":1}\nrest"], 100).unwrap(), "{\"a\":1}");
    assert_eq!(read_line_capped(&[b"no newline"], 100).unwrap(), "no newline");
    let big = vec![b'x'; 10_000];
    assert!(read_line_capped(&[big.as_slice()], 100).is_err());
}

#[test]
fn a_line_is_json_first() {
    assert_eq!(check_request(" {\"v\":1,\"type\":\"list\"}\r\n"), Ok(()));
    assert_eq!(check_request(r#"{"v":0}"#), Ok(()));
    let e = check_request("not json").unwrap_err();
    assert!(e.starts_with("malformed JSON: "), "{e}");
    // A version that is no number is no version.
    let missing = Err("missing protocol version \"v\"".to_string());
    assert_eq!(check_request(r#"{"v":"1"}"#), missing);
    assert_eq!(check_request("[1]"), missing);
    assert_eq!(check_version(Some(PROTOCOL_VERSION as u64)), Ok(()));
    assert_eq!(
        check_version(Some(2)),
        Err("unsupported protocol version 2 (this geist speaks 1)".to_string())
    );
}

#[test]
fn chunks_do_not_change_the_line() {
    let bytes = "h\u{e9}llo\nrest".as_bytes();
    for cut in 1..bytes.len() {
        let parts: [&[u8]; 2] = [&bytes[..cut], &bytes[cut..]];
        assert_eq!(read_line_capped(&parts, 100), Ok("h\u{e9}llo".to_string()), "{cut}");
    }
}

#[test]
fn a_line_reader_says_when_to_stop() {
    let mut r = LineReader::new(8);
    assert_eq!(r.push(b"abc"), LineState::More);
    assert_eq!(r.push(b"de\n"), LineState::Complete);
    assert_eq!(r.finish(), Ok("abcde".to_string()));
    let mut r = LineReader::new(4);
    assert_eq!(r.push(b"abcdefgh"), LineState::TooLarge);
    assert_eq!(read_line_capped(&[b"\xff\n"], 10), Err(LineError::NotUtf8));
    assert_eq!(LineError::NotUtf8.message(), "request is not UTF-8");
    assert_eq!(LineError::TooLarge.message(), "request too large");
}

#[test]
fn failures_are_answered() {
    let ok = Response::ok();
    assert!(ok.ok && ok.error.is_none());
    assert_eq!(ok.v, PROTOCOL_VERSION);
    let said = |f: Failure| {
        let r = f.response();
        assert!(!r.ok);
        r.error.unwrap()
    };
    assert_eq!(said(Failure::Io("gone".to_string())), "gone");
    assert_eq!(said(Failure::Line(LineError::TooLarge)), "request too large");
    assert_eq!(said(Failure::Request("what".to_string())), "what");
    assert_eq!(said(Failure::ShuttingDown), "geist is shutting down");
    assert_eq!(said(Failure::TimedOut), "timed out waiting for geist");
    assert_eq!(framed("{}"), "{}\n");
}

#[test]
fn connecting_retries_only_a_busy_server() {
    let mut c = Connect::new();
    for _ in 0..19 {
        assert!(matches!(c.failed(OpenError::Busy), ConnectStep::Retry));
    }
    match c.failed(OpenError::Busy) {
        ConnectStep::GiveUp(SendError::Failed(m)) => assert_eq!(m, "the running geist is busy"),
        _ => panic!("gives up"),
    }
    let mut c = Connect::new();
    assert!(matches!(c.failed(OpenError::NotFound), ConnectStep::Fail(SendError::NoServer)));
    assert!(matches!(
        c.failed(OpenError::Other("denied".to_string())),
        ConnectStep::Fail(SendError::Failed(_))
    ));
}

#[test]
fn the_server_must_be_ours() {
    assert!(check_server(Some("S-1"), Some("S-1")).is_ok());
    assert!(check_server(Some("S-1"), Some("S-2")).is_err());
    assert!(check_server(None, None).is_err());
}

#[test]
fn the_pipe_belongs_to_one_user_in_one_session() {
    assert_eq!(pipe_name(Some(" dev "), Some("S-1"), None, 3), r"\\.\pipe\dev");
    assert_eq!(pipe_name(Some("  "), Some("S-1"), None, 3), r"\\.\pipe\geist-S-1-3");
    assert_eq!(pipe_name(None, None, Some("me"), 12), r"\\.\pipe\geist-me-12");
    assert_eq!(pipe_name(None, None, None, 0), r"\\.\pipe\geist-user-0");
    assert_eq!(pipe_sddl(Some("S-1")), "D:P(A;;GA;;;S-1)(A;;GA;;;SY)");
    assert_eq!(pipe_sddl(None), "D:P(A;;GA;;;OW)(A;;GA;;;SY)");
}

#[test]
fn a_message_comes_through_the_wire_as_it_was() {
    let json = "{\"text\":\"h\u{e9}\u{4e2d}\"}";
    let line = framed(json);
    let bytes = line.as_bytes();
    for cut in 1..bytes.len() {
        let parts: [&[u8]; 2] = [&bytes[..cut], &bytes[cut..]];
        assert_eq!(read_line_capped(&parts, 100).as_deref(), Ok(json), "{cut}");
    }
}

#[test]
fn a_long_line_is_refused_however_it_arrives() {
    let line = b"0123456789\n";
    assert_eq!(read_line_capped(&[line], 5), Err(LineError::TooLarge));
    assert_eq!(read_line_capped(&[&line[..4], &line[4..]], 5), Err(LineError::TooLarge));
    assert_eq!(read_line_capped(&[b"01234\n56789"], 5), Ok("01234".to_string()));
    assert_eq!(read_line_capped(&[b"0123456789"], 10), Ok("0123456789".to_string()));
    let mut r = LineReader::new(5);
    assert_eq!(r.push(line), LineState::TooLarge);
    assert_eq!(r.finish(), Err(LineError::TooLarge));
}
