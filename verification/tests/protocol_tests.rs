use clipboard_bridge::clip::Clip;
use clipboard_bridge::mirror::clip_frame;
use clipboard_bridge::protocol::{
    encode, hmac_hex, pairing_code, pairing_code_from, random_hex, Frame, DEFAULT_PORT, MAX_FRAME,
    SERVICE_TYPE, VERSION,
};

fn line(f: &Frame) -> String {
    String::from_utf8(encode(f)).unwrap()
}

#[test]
fn constants() {
    assert_eq!(VERSION, 2);
    assert_eq!(DEFAULT_PORT, 52017);
    assert_eq!(MAX_FRAME, 24 * 1024 * 1024);
    assert_eq!(SERVICE_TYPE, "_clipbridge._tcp.local.");
}

#[test]
fn hmac_hex_known_values() {
    assert_eq!(hmac_hex("00ff", "abc"), "95e9ac7e35b5708a9d182dc0d1dd37e43b53361dbee57cb76389d80de4114601");
    assert_eq!(hmac_hex("00FF", "abc"), hmac_hex("00ff", "abc"));
}

#[test]
fn hmac_hex_bad_secret_means_empty_key() {
    let empty = "fd7adb152c05ef80dccf50a1fa4c05d5a3ec6da95575fc312ae7c5d091836351";
    assert_eq!(hmac_hex("", "abc"), empty);
    assert_eq!(hmac_hex("zz", "abc"), empty);
    assert_eq!(hmac_hex("abc", "abc"), empty);
}

#[test]
fn random_hex_is_lower_hex_of_right_length() {
    let a = random_hex(16);
    assert_eq!(a.len(), 32);
    assert!(a.chars().all(|c| c.is_ascii_hexdigit() && !c.is_ascii_uppercase()));
    assert_eq!(random_hex(0), "");
    assert_ne!(random_hex(32), random_hex(32));
}

#[test]
fn pairing_codes() {
    assert_eq!(pairing_code_from(4821), "4821");
    assert_eq!(pairing_code_from(7), "0007");
    assert_eq!(pairing_code_from(123_456), "3456");
    assert_eq!(pairing_code_from(u32::MAX), "7295");
    let c = pairing_code();
    assert_eq!(c.len(), 4);
    assert!(c.chars().all(|c| c.is_ascii_digit()));
}

#[test]
fn encode_handshake_frames() {
    assert_eq!(
        line(&Frame::Challenge { v: 2, name: "mac".into(), nonce: "ab".into() }),
        "{\"t\":\"challenge\",\"v\":2,\"name\":\"mac\",\"nonce\":\"ab\"}\n"
    );
    assert_eq!(
        line(&Frame::Auth { id: "i".into(), name: "vm".into(), mac: "m".into() }),
        "{\"t\":\"auth\",\"id\":\"i\",\"name\":\"vm\",\"mac\":\"m\"}\n"
    );
    assert_eq!(line(&Frame::Pair { name: "vm".into() }), "{\"t\":\"pair\",\"name\":\"vm\"}\n");
    assert_eq!(line(&Frame::PairCode { code: "0042".into() }), "{\"t\":\"pair_code\",\"code\":\"0042\"}\n");
    assert_eq!(
        line(&Frame::Paired { id: "i".into(), secret: "s".into() }),
        "{\"t\":\"paired\",\"id\":\"i\",\"secret\":\"s\"}\n"
    );
    assert_eq!(
        line(&Frame::PairDenied { reason: "no".into() }),
        "{\"t\":\"pair_denied\",\"reason\":\"no\"}\n"
    );
    assert_eq!(line(&Frame::Okay { name: "mac".into() }), "{\"t\":\"ok\",\"name\":\"mac\"}\n");
    assert_eq!(line(&Frame::Error { error: "x".into() }), "{\"t\":\"err\",\"error\":\"x\"}\n");
}

#[test]
fn encode_data_frames() {
    assert_eq!(
        line(&Frame::Clip { mime: "text/plain".into(), b64: "aGk=".into() }),
        "{\"t\":\"clip\",\"mime\":\"text/plain\",\"b64\":\"aGk=\"}\n"
    );
    assert_eq!(line(&Frame::Ping), "{\"t\":\"ping\"}\n");
    assert_eq!(line(&Frame::Pong), "{\"t\":\"pong\"}\n");
}

#[test]
fn encode_escapes_strings() {
    assert_eq!(
        line(&Frame::Pair { name: "a\"b\\c\n".into() }),
        "{\"t\":\"pair\",\"name\":\"a\\\"b\\\\c\\n\"}\n"
    );
    let v: serde_json::Value =
        serde_json::from_slice(&encode(&Frame::Challenge { v: 4_000_000_000, name: "ü".into(), nonce: "".into() })).unwrap();
    assert_eq!(v["t"], "challenge");
    assert_eq!(v["v"], 4_000_000_000u64);
    assert_eq!(v["name"], "ü");
    assert_eq!(v["nonce"], "");
}

#[test]
fn encode_escapes_controls() {
    assert_eq!(
        line(&Frame::Error { error: "a\"b\\c\nd\u{1}é".into() }),
        "{\"t\":\"err\",\"error\":\"a\\\"b\\\\c\\nd\\u0001é\"}\n"
    );
    assert_eq!(
        line(&Frame::PairDenied { reason: "\u{8}\t\u{c}\r\u{1f}".into() }),
        "{\"t\":\"pair_denied\",\"reason\":\"\\b\\t\\f\\r\\u001f\"}\n"
    );
}

#[test]
fn clip_frames_carry_standard_base64() {
    for (data, b64) in [(&b""[..], ""), (b"a", "YQ=="), (b"hi", "aGk="), (b"abc", "YWJj"), (&[0xfb, 0xff][..], "+/8=")] {
        match clip_frame(&Clip::text(data.to_vec())) {
            Frame::Clip { b64: got, .. } => assert_eq!(got, b64),
            other => panic!("{other:?}"),
        }
    }
}
