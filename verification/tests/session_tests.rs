use clipboard_bridge::guest::{bad_host_message, first_lookup, link_end, lookup_label, next_lookup, no_host_message, LinkEnd, Lookup};
use clipboard_bridge::clip::{Clip, Echo};
use clipboard_bridge::config::{GuestConfig, HostConfig, PairedGuest};
use clipboard_bridge::guest::{
    accept_pairing, after_session, apply_options, check_challenge, expect_pair_code, guest_state, hello,
    on_auth_reply, reconnect_detail, AuthReply, HandshakeError, Options, Retry, SessionEnd,
};
use clipboard_bridge::host::{
    authenticate, denial, host_state, new_guest, on_hello, peer_label, recipients, refusal, Hello,
};
use clipboard_bridge::mirror::{incoming, outgoing, Incoming};
use clipboard_bridge::protocol::{hmac_hex, Frame};

fn paired_cfg() -> GuestConfig {
    let mut c = GuestConfig::unconfigured();
    c.id = "id1".into();
    c.secret = "00ff".into();
    c
}

#[test]
fn challenge_in_this_version_is_accepted() {
    let r = check_challenge(Some(Frame::Challenge { v: 2, name: "mac".into(), nonce: "n".into() }));
    assert_eq!(r.unwrap(), ("mac".to_string(), "n".to_string()));
}

#[test]
fn challenge_in_other_version_is_refused() {
    let r = check_challenge(Some(Frame::Challenge { v: 1, name: "mac".into(), nonce: "n".into() }));
    assert!(matches!(r, Err(HandshakeError::VersionMismatch { host: 1 })));
    assert!(matches!(check_challenge(None), Err(HandshakeError::UnexpectedHandshake(None))));
    assert!(matches!(
        check_challenge(Some(Frame::Ping)),
        Err(HandshakeError::UnexpectedHandshake(Some(Frame::Ping)))
    ));
}

#[test]
fn hello_authenticates_when_paired() {
    match hello(&paired_cfg(), "vm", "abc") {
        Frame::Auth { id, name, mac } => {
            assert_eq!(id, "id1");
            assert_eq!(name, "vm");
            assert_eq!(mac, hmac_hex("00ff", "abc"));
        }
        other => panic!("{other:?}"),
    }
    match hello(&GuestConfig::unconfigured(), "vm", "abc") {
        Frame::Pair { name } => assert_eq!(name, "vm"),
        other => panic!("{other:?}"),
    }
}

#[test]
fn pairing_code_then_paired() {
    assert_eq!(expect_pair_code(Some(Frame::PairCode { code: "1234".into() })).unwrap(), "1234");
    assert!(matches!(expect_pair_code(Some(Frame::Okay { name: "x".into() })), Err(HandshakeError::ExpectedPairCode(_))));
    let mut c = GuestConfig::unconfigured();
    accept_pairing(&mut c, Some(Frame::Paired { id: "i".into(), secret: "s".into() }), "mac").unwrap();
    assert_eq!((c.id.as_str(), c.secret.as_str(), c.host_name.as_str()), ("i", "s", "mac"));
    assert!(c.paired());
}

#[test]
fn pairing_denied_or_garbled() {
    let mut c = GuestConfig::unconfigured();
    match accept_pairing(&mut c, Some(Frame::PairDenied { reason: "denied on host".into() }), "mac") {
        Err(HandshakeError::PairingDenied { reason }) => assert_eq!(reason, "denied on host"),
        other => panic!("{other:?}"),
    }
    assert!(!c.paired());
    assert!(matches!(accept_pairing(&mut c, None, "mac"), Err(HandshakeError::UnexpectedPairingReply(None))));
}

#[test]
fn auth_replies() {
    let mut c = paired_cfg();
    assert!(matches!(on_auth_reply(&mut c, Some(Frame::Okay { name: "mac".into() })), Ok(AuthReply::Connected)));
    assert!(c.paired());
    match on_auth_reply(&mut c, Some(Frame::Error { error: "busy".into() })) {
        Err(HandshakeError::HostRefused { error }) => assert_eq!(error, "busy"),
        other => panic!("{other:?}"),
    }
    assert!(c.paired());
    assert!(matches!(on_auth_reply(&mut c, Some(Frame::Pong)), Err(HandshakeError::UnexpectedReply(_))));
}

#[test]
fn host_refusal_makes_guest_pair_again() {
    let mut c = paired_cfg();
    c.host_name = "mac".into();
    let r = on_auth_reply(&mut c, Some(refusal()));
    assert!(matches!(r, Ok(AuthReply::Forgotten)));
    assert!(!c.paired());
    assert_eq!(c.host_name, "mac");
}

#[test]
fn backoff_policy() {
    assert_eq!(after_session(1, &SessionEnd::Finished, false), Retry::Stop);
    assert_eq!(after_session(4, &SessionEnd::Disconnected, false), Retry::Wait { seconds: 1, next: 2 });
    assert_eq!(after_session(4, &SessionEnd::Failed("connection refused".into()), false), Retry::Wait { seconds: 4, next: 8 });
    assert_eq!(after_session(8, &SessionEnd::Failed("boom".into()), false), Retry::Wait { seconds: 8, next: 15 });
    assert_eq!(after_session(15, &SessionEnd::Failed("boom".into()), false), Retry::Wait { seconds: 15, next: 15 });
    assert_eq!(
        after_session(1, &SessionEnd::Failed("pairing denied: denied on host".into()), false),
        Retry::Wait { seconds: 60, next: 15 }
    );
    assert_eq!(after_session(1, &SessionEnd::Failed("x".into()), true), Retry::GiveUp);
    assert_eq!(after_session(1, &SessionEnd::Disconnected, true), Retry::Wait { seconds: 1, next: 2 });
}

#[test]
fn details_and_state() {
    assert_eq!(reconnect_detail(15), "reconnecting in 15s");
    let st = guest_state(true, "mac", "connected");
    assert_eq!(st.role, "guest");
    assert!(st.connected);
    assert_eq!(st.peer, "mac");
    assert_eq!(st.detail, "connected");
    assert_eq!(st.updated.len(), 20);
}

#[test]
fn options_override_config() {
    let mut c = paired_cfg();
    apply_options(&mut c, &Options { host: Some("10.0.0.9".into()), port: Some(1), once: false });
    assert_eq!((c.host.as_str(), c.port), ("10.0.0.9", 1));
    apply_options(&mut c, &Options { host: None, port: None, once: true });
    assert_eq!((c.host.as_str(), c.port), ("10.0.0.9", 1));
    assert_eq!(c.id, "id1");
}

#[test]
fn host_authenticates_known_guest_only() {
    let g = PairedGuest { id: "id1".into(), name: "vm".into(), secret: "00ff".into(), paired_at: String::new() };
    let guests = vec![g];
    let mac = hmac_hex("00ff", "nonce");
    assert!(authenticate(&guests, "id1", &mac, "nonce"));
    assert!(!authenticate(&guests, "id2", &mac, "nonce"));
    assert!(!authenticate(&guests, "id1", &mac, "other"));
    assert!(!authenticate(&[].to_vec(), "id1", &mac, "nonce"));
}

#[test]
fn pairing_then_auth_round_trip() {
    let mut h = HostConfig::default();
    let g = new_guest("vm".into());
    assert_eq!(g.id.len(), 16);
    assert_eq!(g.secret.len(), 64);
    assert_eq!(g.paired_at.len(), 20);
    let frame = Frame::Paired { id: g.id.clone(), secret: g.secret.clone() };
    h.record_pairing(g);
    let mut c = GuestConfig::unconfigured();
    accept_pairing(&mut c, Some(frame), "mac").unwrap();
    match hello(&c, "vm", "n0nce") {
        Frame::Auth { id, mac, .. } => assert!(authenticate(&h.guests, &id, &mac, "n0nce")),
        other => panic!("{other:?}"),
    }
}

#[test]
fn host_frames_and_state() {
    assert!(matches!(denial(), Frame::PairDenied { reason } if reason == "denied on host"));
    assert!(matches!(refusal(), Frame::Error { error } if error == "unknown guest; pair again"));
    assert_eq!(peer_label("vm", "10.0.0.3"), "vm (10.0.0.3)");
    let st = host_state(&vec!["a (1)".to_string(), "b (2)".to_string()]);
    assert_eq!(st.role, "host");
    assert!(st.connected);
    assert_eq!(st.peer, "a (1), b (2)");
    assert_eq!(st.detail, "2 guest(s) connected");
    let none = host_state(&vec![]);
    assert!(!none.connected);
    assert_eq!(none.peer, "");
    assert_eq!(none.detail, "0 guest(s) connected");
}

#[test]
fn clip_crosses_the_link_once() {
    let mut a = Echo::default();
    let mut b = Echo::default();
    let clip = Clip::text(b"hello".to_vec());
    let f = outgoing(&mut a, &clip).unwrap();
    assert!(matches!(&f, Frame::Clip { mime, b64 } if mime == "text/plain" && b64 == "aGVsbG8="));
    assert!(outgoing(&mut a, &clip).is_none());
    match incoming(&mut b, f).unwrap() {
        Incoming::Apply(c) => {
            assert_eq!(c, clip);
            // Setting the clipboard reports the same clip back: not echoed.
            assert!(outgoing(&mut b, &c).is_none());
        }
        other => panic!("{other:?}"),
    }
}

#[test]
fn incoming_edge_cases() {
    let mut e = Echo::default();
    assert!(matches!(incoming(&mut e, Frame::Ping), Ok(Incoming::Reply(Frame::Pong))));
    assert!(matches!(incoming(&mut e, Frame::Pong), Ok(Incoming::Ignore)));
    assert!(matches!(
        incoming(&mut e, Frame::Clip { mime: "text/plain".into(), b64: "".into() }),
        Ok(Incoming::Ignore)
    ));
    assert!(incoming(&mut e, Frame::Clip { mime: "text/plain".into(), b64: "!!".into() }).is_err());
    let f = Frame::Clip { mime: "text/plain".into(), b64: "aGk=".into() };
    assert!(matches!(incoming(&mut e, f.clone()), Ok(Incoming::Apply(_))));
    assert!(matches!(incoming(&mut e, f), Ok(Incoming::Ignore)));
}

#[test]
fn host_sorts_the_first_frame() {
    let g = PairedGuest { id: "id1".into(), name: "vm".into(), secret: "00ff".into(), paired_at: String::new() };
    let guests = vec![g];
    let mac = hmac_hex("00ff", "nonce");
    let known = on_hello(&guests, "nonce", Some(Frame::Auth { id: "id1".into(), name: "vm".into(), mac: mac.clone() }));
    assert!(matches!(known, Hello::Known { name } if name == "vm"));
    let stale = on_hello(&guests, "other", Some(Frame::Auth { id: "id1".into(), name: "vm".into(), mac }));
    assert!(matches!(stale, Hello::Unknown { name } if name == "vm"));
    let pair = on_hello(&guests, "nonce", Some(Frame::Pair { name: "new".into() }));
    assert!(matches!(pair, Hello::PairRequest { name } if name == "new"));
    assert!(matches!(on_hello(&guests, "nonce", Some(Frame::Ping)), Hello::Unexpected(Frame::Ping)));
    assert!(matches!(on_hello(&guests, "nonce", None), Hello::Closed));
}

#[test]
fn handshake_messages() {
    assert_eq!(
        HandshakeError::VersionMismatch { host: 1 }.message(),
        "host speaks protocol v1, this build speaks v2"
    );
    assert_eq!(
        HandshakeError::PairingDenied { reason: "denied on host".into() }.message(),
        "pairing denied: denied on host"
    );
    assert_eq!(HandshakeError::HostRefused { error: "busy".into() }.message(), "host refused: busy");
    assert_eq!(
        HandshakeError::UnexpectedHandshake(Some(Frame::Ping)).message(),
        "unexpected handshake from host: Some(Ping)"
    );
    assert_eq!(HandshakeError::ExpectedPairCode(None).message(), "expected pairing code, got None");
    assert_eq!(
        HandshakeError::UnexpectedPairingReply(Some(Frame::Okay { name: "m\"a\nc".into() })).message(),
        "unexpected reply while pairing: Some(Ok { name: \"m\\\"a\\nc\" })"
    );
    assert_eq!(
        HandshakeError::UnexpectedReply(Some(Frame::Challenge { v: 2, name: "a\u{1}".into(), nonce: "x\\".into() }))
            .message(),
        "unexpected reply: Some(Challenge { v: 2, name: \"a\\u{1}\", nonce: \"x\\\\\" })"
    );
}

#[test]
fn denial_backs_off_a_minute() {
    let msg = HandshakeError::PairingDenied { reason: "denied on host".into() }.message();
    assert_eq!(after_session(4, &SessionEnd::Failed(msg), false), Retry::Wait { seconds: 60, next: 15 });
}

#[test]
fn failures_wait_one_two_four_eight_then_fifteen() {
    let mut backoff = 1;
    let mut waits = Vec::new();
    for _ in 0..7 {
        match after_session(backoff, &SessionEnd::Failed("connection refused".into()), false) {
            Retry::Wait { seconds, next } => {
                waits.push(seconds);
                backoff = next;
            }
            other => panic!("{other:?}"),
        }
    }
    assert_eq!(waits, vec![1, 2, 4, 8, 15, 15, 15]);
}

#[test]
fn forgotten_guest_clears_id_and_secret() {
    let mut c = paired_cfg();
    c.host = "127.0.0.1".into();
    c.host_name = "mac".into();
    let r = on_auth_reply(&mut c, Some(Frame::Error { error: "unknown guest; pair again".into() }));
    assert!(matches!(r, Ok(AuthReply::Forgotten)));
    assert_eq!((c.id.as_str(), c.secret.as_str()), ("", ""));
    assert_eq!((c.host.as_str(), c.host_name.as_str()), ("127.0.0.1", "mac"));
}

#[test]
fn clips_go_to_every_peer_but_the_sender() {
    let ids = vec![4, 7, 9];
    assert_eq!(recipients(&ids, Some(7)), vec![0, 2]);
    assert_eq!(recipients(&ids, None), vec![0, 1, 2]);
    assert_eq!(recipients(&ids, Some(5)), vec![0, 1, 2]);
    assert_eq!(recipients(&vec![], Some(1)), Vec::<usize>::new());
}

#[test]
fn host_lookup_order_and_labels() {
    assert_eq!(first_lookup("10.0.0.2"), Lookup::Configured);
    assert_eq!(first_lookup(""), Lookup::Mdns);
    assert_eq!(next_lookup(&Lookup::Mdns), Lookup::Gateway);
    assert_eq!(next_lookup(&Lookup::Gateway), Lookup::NotFound);
    assert_eq!(next_lookup(&Lookup::Configured), Lookup::NotFound);
    assert_eq!(lookup_label(&Lookup::Configured, ""), "config");
    assert_eq!(lookup_label(&Lookup::Mdns, "mac._clipbridge._tcp.local."), "mDNS mac._clipbridge._tcp.local.");
    assert_eq!(lookup_label(&Lookup::Gateway, ""), "gateway fallback");
    assert_eq!(bad_host_message(), "HOST must be an IP address");
    assert_eq!(no_host_message(), "could not determine host address; set host = \"...\" in guest.toml");
}

#[test]
fn clean_close_is_a_normal_disconnect() {
    let end = link_end(LinkEnd::Closed);
    assert!(matches!(end, SessionEnd::Disconnected));
    assert_eq!(after_session(8, &end, false), Retry::Wait { seconds: 1, next: 2 });
    match link_end(LinkEnd::Error("broken pipe".into())) {
        SessionEnd::Failed(m) => assert_eq!(m, "broken pipe"),
        _ => panic!("expected a failure"),
    }
    assert_eq!(after_session(1000, &SessionEnd::Failed("x".into()), false), Retry::Wait { seconds: 1000, next: 15 });
}
