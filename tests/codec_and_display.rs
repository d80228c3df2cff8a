use torswitch::circuit::Circuit;
use torswitch::display::{format_circuit_path, format_location, GeoInfo};
use torswitch::hexcode::{from_hex, to_hex_upper};
use torswitch::reply::ControlError;
use torswitch::rotation::{Rotation, RotationStep, SETTLE_DELAY_SECS};

#[test]
fn hex_round_trips_cookie_and_nonces() {
    let cookie: Vec<u8> = (0u8..32).map(|i| i.wrapping_mul(37)).collect();
    let nonce: Vec<u8> = (0u8..32).rev().collect();
    for bytes in [cookie, nonce, vec![0xff; 32], vec![]] {
        let text = to_hex_upper(&bytes);
        assert_eq!(text, text.to_uppercase());
        assert_eq!(from_hex(&text), Some(bytes.clone()));
        assert_eq!(from_hex(&text.to_lowercase()), Some(bytes));
    }
}

#[test]
fn hex_encoding_is_upper_case() {
    assert_eq!(to_hex_upper(&[0xde, 0xad, 0x01]), "DEAD01");
}

#[test]
fn hex_decoding_rejects_bad_text() {
    assert_eq!(from_hex("abc"), None);
    assert_eq!(from_hex("zz"), None);
    assert_eq!(from_hex("aB0f"), Some(vec![0xab, 0x0f]));
}

#[test]
fn location_prefers_name_then_code() {
    let mut geo = GeoInfo {
        country_name: Some("Germany".to_string()),
        country_code: Some("DE".to_string()),
        city: Some("Berlin".to_string()),
        region: None,
    };
    assert_eq!(format_location(&geo), "Berlin, Germany");
    geo.country_name = None;
    assert_eq!(format_location(&geo), "Berlin, DE");
    geo.country_code = None;
    geo.city = None;
    assert_eq!(format_location(&geo), "Unknown, Unknown");
}

#[test]
fn circuit_path_joins_hops() {
    let c = Circuit { id: "1".to_string(), status: "BUILT".to_string(), path: vec![], purpose: "GENERAL".to_string() };
    let nodes = vec![("a".to_string(), "DE".to_string()), ("b".to_string(), "??".to_string())];
    assert_eq!(format_circuit_path(&c, &nodes), "a [DE] \u{2192} b [??]");
    assert_eq!(format_circuit_path(&c, &[]), "");
}

#[test]
fn rotation_sends_both_signals_then_settles() {
    let (mut rot, first) = Rotation::new();
    assert_eq!(first, "SIGNAL CLEARDNSCACHE");
    match rot.on_reply(Ok(vec!["OK".to_string()])) {
        RotationStep::Send(c) => assert_eq!(c, "SIGNAL NEWNYM"),
        _ => panic!("expected the new-path signal"),
    }
    assert!(matches!(rot.on_reply(Ok(vec!["OK".to_string()])), RotationStep::Settle(SETTLE_DELAY_SECS)));
    assert_eq!(SETTLE_DELAY_SECS, 10);
}

#[test]
fn rotation_surfaces_rejected_signal() {
    let (mut rot, _) = Rotation::new();
    let e = ControlError::Protocol { code: 552, message: "Unrecognized signal".to_string() };
    match rot.on_reply(Err(e.clone())) {
        RotationStep::Failed(err) => assert_eq!(err.cause, e),
        _ => panic!("expected a failure"),
    }
}
