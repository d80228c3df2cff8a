use torswitch::reply::{parse_reply, ControlError, Progress, ReplyReader};

fn lines(xs: &[&str]) -> Vec<String> {
    xs.iter().map(|s| s.to_string()).collect()
}

#[test]
fn single_line_ok_reply() {
    let r = parse_reply(&lines(&["250 OK\r\n"])).unwrap();
    assert_eq!(r, vec!["OK".to_string()]);
}

#[test]
fn multi_line_reply() {
    let r = parse_reply(&lines(&["250-A\r\n", "250-B\r\n", "250 C\r\n"])).unwrap();
    assert_eq!(r, vec!["A", "B", "C"]);
}

#[test]
fn raw_data_block_excludes_terminator() {
    let r = parse_reply(&lines(&[
        "250+circuit-status=\r\n",
        "1 BUILT $AAAA~a PURPOSE=GENERAL\r\n",
        "\r\n",
        "2 LAUNCHED $BBBB PURPOSE=GENERAL\r\n",
        ".\r\n",
        "250 OK\r\n",
    ]))
    .unwrap();
    assert_eq!(
        r,
        vec![
            "circuit-status=",
            "1 BUILT $AAAA~a PURPOSE=GENERAL",
            "2 LAUNCHED $BBBB PURPOSE=GENERAL",
            "OK"
        ]
    );
}

#[test]
fn status_line_inside_data_block_ends_reply() {
    let r = parse_reply(&lines(&["250+ns/id/X=\r\n", "r a b c\r\n", "250 OK\r\n", "ignored\r\n"]))
        .unwrap();
    assert_eq!(r, vec!["ns/id/X=", "r a b c", "OK"]);
}

fn protocol_error(code_line: &str) -> (u16, String) {
    match parse_reply(&lines(&["250-A\r\n", code_line])) {
        Err(ControlError::Protocol { code, message }) => (code, message),
        _ => panic!("expected a protocol error"),
    }
}

#[test]
fn error_codes_are_protocol_errors() {
    assert_eq!(protocol_error("515 Authentication failed\r\n"), (515, "Authentication failed".to_string()));
    assert_eq!(protocol_error("550 Unspecified Tor error\r\n"), (550, "Unspecified Tor error".to_string()));
    assert_eq!(protocol_error("551 Internal error\r\n"), (551, "Internal error".to_string()));
}

#[test]
fn error_code_inside_data_block_is_protocol_error() {
    let r = parse_reply(&lines(&["250+x=\r\n", "data\r\n", "551 broken\r\n"]));
    assert!(matches!(r, Err(ControlError::Protocol { code: 551, .. })));
}

#[test]
fn other_final_code_is_unexpected() {
    let r = parse_reply(&lines(&["552 Unrecognized key\r\n"]));
    match r {
        Err(ControlError::Unexpected { code, message }) => {
            assert_eq!(code, 552);
            assert_eq!(message, "Unrecognized key");
        }
        _ => panic!("expected an unexpected-code error"),
    }
}

#[test]
fn reply_cut_short_is_io_error() {
    assert!(matches!(parse_reply(&lines(&["250-A\r\n"])), Err(ControlError::Io)));
    assert!(matches!(parse_reply(&lines(&[])), Err(ControlError::Io)));
}

#[test]
fn reader_feeds_line_by_line() {
    let mut reader = ReplyReader::new();
    assert!(matches!(reader.feed("250-VERSION\r\n"), Progress::More));
    assert!(matches!(reader.feed("noise outside a block\r\n"), Progress::More));
    assert!(matches!(reader.feed("250 OK\r\n"), Progress::Complete));
    assert_eq!(reader.content, vec!["VERSION", "OK"]);
}

#[test]
fn unexpected_code_inside_data_block_ends_reply() {
    let r = parse_reply(&lines(&["250+x\r\n", "552 y\r\n", "250 OK\r\n"]));
    match r {
        Err(ControlError::Unexpected { code, message }) => {
            assert_eq!(code, 552);
            assert_eq!(message, "y");
        }
        _ => panic!("expected an unexpected-code error"),
    }
}

#[test]
fn unexpected_first_line_stops_reading() {
    let mut reader = ReplyReader::new();
    assert!(matches!(
        reader.feed("552 Unrecognized key\r\n"),
        Progress::Failed(ControlError::Unexpected { code: 552, .. })
    ));
    assert!(reader.content.is_empty());
}

#[test]
fn empty_final_text_ends_reply() {
    let r = parse_reply(&lines(&["250-A\r\n", "250 \r\n", "250 later\r\n"])).unwrap();
    assert_eq!(r, vec!["A", ""]);
}

#[test]
fn bare_newline_terminator_is_accepted() {
    let r = parse_reply(&lines(&["250-A\n", "250 B\n"])).unwrap();
    assert_eq!(r, vec!["A", "B"]);
}
