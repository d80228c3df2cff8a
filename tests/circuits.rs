use torswitch::circuit::{
    circuit_status_query, has_usable, node_info, node_query, parse_circuit_line, parse_circuit_status, resolve_node, Circuit,
    CircuitWait, WaitStep, CIRCUIT_POLL_BUDGET,
};
use torswitch::reply::ControlError;

fn lines(xs: &[&str]) -> Vec<String> {
    xs.iter().map(|s| s.to_string()).collect()
}

fn circuit(id: &str, status: &str, purpose: &str) -> Circuit {
    Circuit { id: id.to_string(), status: status.to_string(), path: vec![], purpose: purpose.to_string() }
}

#[test]
fn circuit_status_line_parses() {
    let c = parse_circuit_line("CIRC1 BUILT $AAAA~nodeA,$BBBB~nodeB PURPOSE=GENERAL").unwrap();
    assert_eq!(
        c,
        Circuit {
            id: "CIRC1".to_string(),
            status: "BUILT".to_string(),
            path: vec!["AAAA".to_string(), "BBBB".to_string()],
            purpose: "GENERAL".to_string(),
        }
    );
}

#[test]
fn purpose_defaults_to_unknown() {
    let c = parse_circuit_line("7 EXTENDED $CCCC BUILD_FLAGS=NEED_CAPACITY").unwrap();
    assert_eq!(c.path, vec!["CCCC"]);
    assert_eq!(c.purpose, "UNKNOWN");
}

#[test]
fn purpose_found_among_later_flags() {
    let c = parse_circuit_line("8 BUILT $DDDD BUILD_FLAGS=X PURPOSE=HS_CLIENT_REND TIME_CREATED=T").unwrap();
    assert_eq!(c.purpose, "HS_CLIENT_REND");
}

#[test]
fn short_lines_are_skipped() {
    assert!(parse_circuit_line("9 LAUNCHED").is_none());
    assert!(parse_circuit_line("").is_none());
}

#[test]
fn malformed_path_entries_are_skipped() {
    let c = parse_circuit_line("3 BUILT $AAAA,BBBB,$~x,,$CCCC~c PURPOSE=GENERAL").unwrap();
    assert_eq!(c.path, vec!["AAAA", "CCCC"]);
}

#[test]
fn status_reply_skips_header_and_bad_lines() {
    let cs = parse_circuit_status(&lines(&[
        "circuit-status=",
        "1 BUILT $AAAA~a,$BBBB~b PURPOSE=GENERAL",
        "junk",
        "2 LAUNCHED $CCCC PURPOSE=GENERAL",
        "OK",
    ]));
    assert_eq!(cs.len(), 2);
    assert_eq!(cs[0].id, "1");
    assert_eq!(cs[1].status, "LAUNCHED");
}

#[test]
fn usable_needs_built_and_general() {
    assert!(circuit("1", "BUILT", "GENERAL").is_usable());
    assert!(circuit("1", "BUILT", "CONFLUX_GENERAL").is_usable());
    assert!(!circuit("1", "LAUNCHED", "GENERAL").is_usable());
    assert!(!circuit("1", "BUILT", "HS_VANGUARDS").is_usable());
    assert!(has_usable(&[circuit("1", "FAILED", "GENERAL"), circuit("2", "BUILT", "GENERAL")]));
    assert!(!has_usable(&[]));
}

#[test]
fn wait_succeeds_on_first_usable_poll() {
    let mut wait = CircuitWait::new(CIRCUIT_POLL_BUDGET);
    assert_eq!(wait.observe(&[circuit("1", "LAUNCHED", "GENERAL")]), WaitStep::PollAgain);
    assert_eq!(wait.observe(&[circuit("1", "BUILT", "GENERAL")]), WaitStep::Ready);
    assert_eq!(wait.polls, 2);
}

#[test]
fn wait_times_out_after_exactly_budget_polls() {
    let mut wait = CircuitWait::new(CIRCUIT_POLL_BUDGET);
    let mut polls = 0;
    loop {
        assert!(!wait.is_exhausted());
        polls += 1;
        match wait.observe(&[]) {
            WaitStep::PollAgain => {}
            WaitStep::TimedOut => break,
            WaitStep::Ready => panic!("nothing was usable"),
        }
    }
    assert_eq!(polls, 30);
    assert!(wait.is_exhausted());
}

#[test]
fn node_query_names_the_id() {
    assert_eq!(node_query("ABCDEF0123"), "GETINFO ns/id/ABCDEF0123");
}

#[test]
fn node_resolves_from_router_line() {
    let r = node_info("ABCDEF0123", &lines(&["ns/id/ABCDEF0123=", "r relayname id1 DE 2024-01-01", "s Fast", "OK"]));
    assert_eq!(r, ("relayname".to_string(), "DE".to_string()));
}

#[test]
fn unparseable_node_reply_falls_back() {
    let r = node_info("ABCDEF0123", &lines(&["garbage", "r too short", "OK"]));
    assert_eq!(r, ("ABCDEF".to_string(), "??".to_string()));
}

#[test]
fn failed_node_query_falls_back() {
    let reply: Result<Vec<String>, ControlError> =
        Err(ControlError::Protocol { code: 552, message: "Unrecognized key".to_string() });
    assert_eq!(resolve_node("0123456789", &reply), ("012345".to_string(), "??".to_string()));
    assert_eq!(resolve_node("AB", &Err(ControlError::Io)), ("AB".to_string(), "??".to_string()));
}

#[test]
fn circuit_status_query_text() {
    assert_eq!(circuit_status_query(), "GETINFO circuit-status");
}
