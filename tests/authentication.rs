use torswitch::auth::{
    answer_challenge, auth_plan, challenge_command, compute_client_hash, compute_server_hash, cookie_command,
    new_client_nonce, parse_auth_offer, parse_challenge, reply_is_ok, AuthError, AuthMethod, Challenge,
};
use torswitch::authenticator::{AuthAction, Authenticator, Stage};
use torswitch::hexcode::to_hex_upper;

fn lines(xs: &[&str]) -> Vec<String> {
    xs.iter().map(|s| s.to_string()).collect()
}

fn cookie() -> Vec<u8> {
    (0u8..32).collect()
}

const SERVER_HASH: &str = "5F7CB5569957C99373E329258545940F029AF175DA225F4A3125EEBF30C24BBA";
const CLIENT_HASH: &str = "9F99F2C4B75C91123CA5C6C6E3F76A9EF7FBD9471053CBE34454A4269CC39F7C";

#[test]
fn offer_parses_methods_and_cookie_file() {
    let offer = parse_auth_offer(&lines(&[
        "PROTOCOLINFO 1",
        "AUTH METHODS=COOKIE,SAFECOOKIE COOKIEFILE=\"/run/tor/control.authcookie\"",
        "VERSION Tor=\"0.4.8.9\"",
        "OK",
    ]));
    assert_eq!(offer.methods, vec!["COOKIE", "SAFECOOKIE"]);
    assert_eq!(offer.cookie_file, Some("/run/tor/control.authcookie".to_string()));
}

#[test]
fn offer_without_auth_line_is_empty() {
    let offer = parse_auth_offer(&lines(&["PROTOCOLINFO 1", "OK"]));
    assert!(offer.methods.is_empty());
    assert!(offer.cookie_file.is_none());
    let plan = auth_plan(&offer);
    assert_eq!(plan.len(), 1);
    assert!(matches!(plan[0], AuthMethod::Null));
}

#[test]
fn plan_orders_cookie_safecookie_null() {
    let offer = parse_auth_offer(&lines(&["AUTH METHODS=NULL,SAFECOOKIE,\"COOKIE\" COOKIEFILE=\"/c\""]));
    let plan = auth_plan(&offer);
    assert_eq!(plan.len(), 3);
    assert!(matches!(&plan[0], AuthMethod::Cookie { cookie_file } if cookie_file == "/c"));
    assert!(matches!(&plan[1], AuthMethod::SafeCookie { cookie_file } if cookie_file == "/c"));
    assert!(matches!(plan[2], AuthMethod::Null));
}

#[test]
fn plan_without_cookie_file_skips_cookie_methods() {
    let offer = parse_auth_offer(&lines(&["AUTH METHODS=COOKIE,SAFECOOKIE"]));
    assert!(auth_plan(&offer).is_empty());
}

#[test]
fn commands_carry_upper_hex() {
    assert_eq!(cookie_command(&[0xab, 0x01]), "AUTHENTICATE AB01");
    assert_eq!(challenge_command(&[0x0f, 0xf0]), "AUTHCHALLENGE SAFECOOKIE 0FF0");
}

#[test]
fn ok_line_accepts() {
    assert!(reply_is_ok(&lines(&["OK"])));
    assert!(!reply_is_ok(&lines(&["NOT OK", "OKAY"])));
}

#[test]
fn challenge_parses_hash_and_nonce() {
    let c = parse_challenge(&lines(&["AUTHCHALLENGE SERVERHASH=0aff SERVERNONCE=1234"])).unwrap();
    assert_eq!(c.server_hash, vec![0x0a, 0xff]);
    assert_eq!(c.server_nonce, vec![0x12, 0x34]);
}

#[test]
fn malformed_challenges_are_rejected() {
    for bad in [
        vec!["AUTHCHALLENGE SERVERNONCE=1234"],
        vec!["AUTHCHALLENGE SERVERHASH=0aff"],
        vec!["AUTHCHALLENGE SERVERHASH=0af SERVERNONCE=1234"],
        vec!["AUTHCHALLENGE SERVERHASH=0aff SERVERNONCE=12zz"],
        vec![],
    ] {
        assert_eq!(parse_challenge(&lines(&bad)).err(), Some(AuthError::MalformedChallenge));
    }
}

#[test]
fn safecookie_hashes_match_known_values() {
    let cn = vec![0xAAu8; 32];
    let sn = vec![0x55u8; 32];
    assert_eq!(to_hex_upper(&compute_server_hash(&cookie(), &cn, &sn)), SERVER_HASH);
    assert_eq!(to_hex_upper(&compute_client_hash(&cookie(), &cn, &sn)), CLIENT_HASH);
}

#[test]
fn safecookie_hashes_are_deterministic_and_keyed_apart() {
    let cn = vec![1u8; 32];
    let sn = vec![2u8; 32];
    let a = compute_server_hash(&cookie(), &cn, &sn);
    let b = compute_server_hash(&cookie(), &cn, &sn);
    let c = compute_client_hash(&cookie(), &cn, &sn);
    assert_eq!(a, b);
    assert_eq!(c, compute_client_hash(&cookie(), &cn, &sn));
    assert_ne!(a, c);
    assert_eq!(a.len(), 32);
}

#[test]
fn verified_challenge_yields_client_hash_command() {
    let cn = vec![0xAAu8; 32];
    let ch = Challenge { server_hash: compute_server_hash(&cookie(), &cn, &[0x55; 32]), server_nonce: vec![0x55; 32] };
    assert_eq!(answer_challenge(&cookie(), &cn, &ch).unwrap(), format!("AUTHENTICATE {}", CLIENT_HASH));
}

#[test]
fn one_bit_off_server_hash_is_rejected() {
    let cn = vec![0xAAu8; 32];
    let mut hash = compute_server_hash(&cookie(), &cn, &[0x55; 32]);
    hash[31] ^= 1;
    let ch = Challenge { server_hash: hash, server_nonce: vec![0x55; 32] };
    assert_eq!(answer_challenge(&cookie(), &cn, &ch).err(), Some(AuthError::ServerHashMismatch));
}

#[test]
fn client_nonces_are_fresh() {
    let a = new_client_nonce();
    let b = new_client_nonce();
    assert_eq!(a.len(), 32);
    assert_ne!(a, b);
}

fn sent(a: &AuthAction) -> String {
    match a {
        AuthAction::Send(c) => c.clone(),
        _ => panic!("expected a command"),
    }
}

#[test]
fn exchange_falls_from_cookie_to_safecookie() {
    let (mut auth, first) = Authenticator::new();
    assert_eq!(sent(&first), "PROTOCOLINFO");
    let a = auth.on_protocol_info(&lines(&["AUTH METHODS=COOKIE,SAFECOOKIE COOKIEFILE=\"/c\"", "OK"]));
    assert!(matches!(&a, AuthAction::ReadCookie(p) if p == "/c"));
    let a = auth.on_cookie(Some(cookie()));
    assert_eq!(sent(&a), format!("AUTHENTICATE {}", to_hex_upper(&cookie())));
    let a = auth.on_reply(&lines(&["Authentication failed"]));
    assert!(matches!(&a, AuthAction::ReadCookie(p) if p == "/c"));
    let a = auth.on_cookie(Some(cookie()));
    let nonce = auth.client_nonce.clone();
    assert_eq!(sent(&a), format!("AUTHCHALLENGE SAFECOOKIE {}", to_hex_upper(&nonce)));
    let sn = vec![0x55u8; 32];
    let sh = compute_server_hash(&cookie(), &nonce, &sn);
    let reply = format!("AUTHCHALLENGE SERVERHASH={} SERVERNONCE={}", to_hex_upper(&sh), to_hex_upper(&sn));
    let a = auth.on_reply(&[reply]);
    let expected = to_hex_upper(&compute_client_hash(&cookie(), &nonce, &sn));
    assert_eq!(sent(&a), format!("AUTHENTICATE {}", expected));
    assert!(matches!(auth.on_reply(&lines(&["OK"])), AuthAction::Succeeded));
    assert_eq!(auth.stage, Stage::Done);
}

#[test]
fn exchange_stops_on_server_hash_mismatch() {
    let (mut auth, _) = Authenticator::new();
    auth.on_protocol_info(&lines(&["AUTH METHODS=SAFECOOKIE COOKIEFILE=\"/c\""]));
    auth.on_cookie(Some(cookie()));
    let reply = format!("AUTHCHALLENGE SERVERHASH={} SERVERNONCE={}", SERVER_HASH, "55".repeat(32));
    assert!(matches!(auth.on_reply(&[reply]), AuthAction::Failed(AuthError::ServerHashMismatch)));
}

#[test]
fn exchange_fails_when_cookie_unreadable() {
    let (mut auth, _) = Authenticator::new();
    auth.on_protocol_info(&lines(&["AUTH METHODS=COOKIE COOKIEFILE=\"/c\""]));
    assert!(matches!(auth.on_cookie(None), AuthAction::Failed(AuthError::CookieUnreadable)));
}

#[test]
fn exchange_with_null_only() {
    let (mut auth, _) = Authenticator::new();
    let a = auth.on_protocol_info(&lines(&["AUTH METHODS=NULL"]));
    assert_eq!(sent(&a), "AUTHENTICATE");
    assert!(matches!(auth.on_reply(&lines(&["OK"])), AuthAction::Succeeded));
}

#[test]
fn exchange_fails_when_no_method_accepted() {
    let (mut auth, _) = Authenticator::new();
    auth.on_protocol_info(&lines(&["AUTH METHODS=NULL"]));
    assert!(matches!(auth.on_reply(&lines(&["nope"])), AuthAction::Failed(AuthError::AllMethodsFailed)));
}

#[test]
fn challenge_hex_case_does_not_matter() {
    let lower = parse_challenge(&lines(&["AUTHCHALLENGE SERVERHASH=abcdef SERVERNONCE=0a0b"])).unwrap();
    let upper = parse_challenge(&lines(&["AUTHCHALLENGE SERVERHASH=ABCDEF SERVERNONCE=0A0B"])).unwrap();
    assert_eq!(lower.server_hash, upper.server_hash);
    assert_eq!(lower.server_nonce, upper.server_nonce);
    assert_eq!(upper.server_hash, vec![0xab, 0xcd, 0xef]);
}

#[test]
fn swapped_key_server_hash_is_rejected() {
    let cn = vec![0xAAu8; 32];
    let sn = vec![0x55u8; 32];
    let ch = Challenge { server_hash: compute_client_hash(&cookie(), &cn, &sn), server_nonce: sn };
    assert_eq!(answer_challenge(&cookie(), &cn, &ch).err(), Some(AuthError::ServerHashMismatch));
}
