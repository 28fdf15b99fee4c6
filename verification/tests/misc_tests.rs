use clipboard_bridge::clip::Clip;
use clipboard_bridge::clipboard::fake_poll;
use clipboard_bridge::protocol::{show_frame, show_maybe_frame, Frame};
use clipboard_bridge::clipboard::{choose_offer, fake_clipboard_path, is_png, is_text, wl_copy_type};
use clipboard_bridge::discovery::{gateway_from_route, hex_u32, mdns_hostname, pick_address, split_words};
use clipboard_bridge::net::{classify_line, LineKind};
use clipboard_bridge::pairing::{answer_is_yes, dialog_allowed, dialog_script, how_to_ask, Ask};
use clipboard_bridge::text::{chars_of, str_contains, str_equal, trimmed};
use clipboard_bridge::util::{is_host, unknown_name, usable_name};

fn cv(s: &str) -> Vec<char> {
    s.chars().collect()
}

#[test]
fn role_follows_os() {
    assert!(is_host("macos"));
    assert!(!is_host("linux"));
    assert!(!is_host("macOS"));
}

#[test]
fn names() {
    assert_eq!(usable_name("  omarchy-vm\n"), Some("omarchy-vm".to_string()));
    assert_eq!(usable_name(" \t\n"), None);
    assert_eq!(usable_name(""), None);
    assert_eq!(unknown_name(), "unknown");
}

#[test]
fn approval_decisions() {
    assert_eq!(how_to_ask(true, true, true), Ask::AutoAccept);
    assert_eq!(how_to_ask(false, true, false), Ask::Dialog);
    assert_eq!(how_to_ask(false, false, true), Ask::Prompt);
    assert_eq!(how_to_ask(false, false, false), Ask::Deny);
    assert!(dialog_allowed("button returned:Allow, gave up:false\n"));
    assert!(!dialog_allowed("button returned:Allow, gave up:true\n"));
    assert!(!dialog_allowed("button returned:Deny"));
    assert!(!dialog_allowed(""));
    assert!(answer_is_yes("y\n"));
    assert!(answer_is_yes("  Y "));
    assert!(answer_is_yes("yes"));
    assert!(!answer_is_yes("YES"));
    assert!(!answer_is_yes("n"));
    assert!(!answer_is_yes(""));
}

#[test]
fn dialog_script_text() {
    let s = dialog_script("vm", "10.211.55.26", "4821");
    assert_eq!(
        s,
        "display dialog \"vm (10.211.55.26) wants to share your clipboard.\\n\\nPairing code: 4821\\n\\nThe VM shows the same code. Allow?\" with title \"Clipboard Bridge\" buttons {\"Deny\", \"Allow\"} default button \"Allow\" cancel button \"Deny\" with icon caution giving up after 90"
    );
}

#[test]
fn mdns_names() {
    assert_eq!(mdns_hostname("mac"), "mac.local.");
    assert_eq!(mdns_hostname("mac.local"), "mac.local.");
    assert_eq!(mdns_hostname("mac.local.local"), "mac.local.");
    assert_eq!(mdns_hostname("mac.local."), "mac.local..local.");
    assert_eq!(mdns_hostname(".local"), ".local.");
}

#[test]
fn address_choice() {
    assert_eq!(pick_address(&vec![false, true, true]), Some(1));
    assert_eq!(pick_address(&vec![false, false]), Some(0));
    assert_eq!(pick_address(&vec![]), None);
}

const ROUTE: &str = "Iface\tDestination\tGateway \tFlags\tRefCnt\tUse\tMetric\tMask\t\tMTU\tWindow\tIRTT\n\
enp0s5\t00000000\t0137D30A\t0003\t0\t0\t100\t00000000\t0\t0\t0\n\
enp0s5\t0037D30A\t00000000\t0001\t0\t0\t100\t00FFFFFF\t0\t0\t0\n";

#[test]
fn gateway_from_default_route() {
    assert_eq!(gateway_from_route(ROUTE), Some([10, 211, 55, 2]));
}

#[test]
fn gateway_edge_cases() {
    assert_eq!(gateway_from_route(""), None);
    assert_eq!(gateway_from_route("header only"), None);
    assert_eq!(gateway_from_route("00000000 00000000 0137D30A\n"), None);
    assert_eq!(gateway_from_route("h\nx 00000000 zz\nx 00000000 0101A8C0\n"), None);
    assert_eq!(gateway_from_route("h\r\nx 00000000 +0101a8c0\r\n"), Some([192, 168, 1, 2]));
    assert_eq!(gateway_from_route("h\nx 00000000\ny 00000000 0101A8C0"), Some([192, 168, 1, 2]));
    assert_eq!(gateway_from_route("h\nx 0000000 0101A8C0\n"), None);
}

#[test]
fn hex_parsing_follows_from_str_radix() {
    for s in ["0", "ff", "FF", "+1a", "00000000000001", "ffffffff", "100000000", "", "+", "-1", "g", " 1"] {
        assert_eq!(hex_u32(&cv(s)), u32::from_str_radix(s, 16).ok(), "{s:?}");
    }
}

#[test]
fn words_follow_split_whitespace() {
    for s in ["", "  a  b ", "a\u{3000}b\u{a0}c", "x", "\t\n"] {
        let got: Vec<String> = split_words(&cv(s)).into_iter().map(|w| w.into_iter().collect()).collect();
        let want: Vec<String> = s.split_whitespace().map(String::from).collect();
        assert_eq!(got, want, "{s:?}");
    }
}

#[test]
fn clipboard_choices() {
    assert_eq!(fake_clipboard_path(Some("/tmp/c".into())), Some("/tmp/c".to_string()));
    assert_eq!(fake_clipboard_path(Some(String::new())), None);
    assert_eq!(fake_clipboard_path(None), None);
    let offered = vec!["TEXT".to_string(), "text/plain".to_string()];
    assert_eq!(choose_offer(&offered), Some(("text/plain", false)));
    let offered = vec!["TEXT".to_string(), "image/png".to_string()];
    assert_eq!(choose_offer(&offered), Some(("image/png", true)));
    assert_eq!(choose_offer(&vec!["STRING".to_string()]), Some(("STRING", false)));
    assert_eq!(choose_offer(&vec!["image/jpeg".to_string()]), None);
    assert_eq!(wl_copy_type("image/png"), "image/png");
    assert_eq!(wl_copy_type("text/plain"), "text/plain;charset=utf-8");
    assert!(is_png("image/png") && !is_png("text/plain"));
    assert!(is_text("text/plain") && !is_text("image/png"));
}

#[test]
fn line_framing() {
    assert_eq!(classify_line(0, 0), LineKind::Eof);
    assert_eq!(classify_line(10, 10), LineKind::Candidate);
    assert_eq!(classify_line(10, 24 * 1024 * 1024), LineKind::Candidate);
    assert_eq!(classify_line(10, 24 * 1024 * 1024 + 1), LineKind::TooLong);
}

#[test]
fn text_helpers() {
    assert_eq!(chars_of("héllo"), cv("héllo"));
    assert_eq!(trimmed(&cv("\u{2003} a b\u{3000}")), cv("a b"));
    assert!(str_contains("abc", "bc"));
    assert!(str_contains("abc", ""));
    assert!(!str_contains("ab", "abc"));
    assert!(str_equal("x", "x") && !str_equal("x", "y"));
}

#[test]
fn too_long_lines_are_reported_with_the_limit() {
    assert_eq!(clipboard_bridge::net::too_long_message(), "frame exceeds 25165824 bytes");
}

#[test]
fn fake_clipboard_reads_back_a_bare_type() {
    let c = clipboard_bridge::clipboard::fake_clip(vec![1, 2], Some("image/png".into())).unwrap();
    assert_eq!((c.mime.as_str(), c.data.as_slice()), ("image/png", &[1u8, 2][..]));
    let t = clipboard_bridge::clipboard::fake_clip(vec![1], Some(" text/plain\n".into())).unwrap();
    assert_eq!(t.mime, "text/plain");
    assert!(clipboard_bridge::clipboard::fake_clip(vec![], Some("image/png".into())).is_none());
}

#[test]
fn frames_as_shown_in_messages() {
    assert_eq!(show_frame(&Frame::Pong), "Pong");
    assert_eq!(show_frame(&Frame::Error { error: "x\ty\u{7f}".into() }), "Err { error: \"x\\ty\\u{7f}\" }");
    assert_eq!(show_maybe_frame(&Some(Frame::Pair { name: "vm".into() })), "Some(Pair { name: \"vm\" })");
    assert_eq!(show_maybe_frame(&None), "None");
}

#[test]
fn frames_are_shown_as_debug_shows_strings() {
    for s in ["plain", "é", "e\u{301}", "\u{301}x", "a\u{85}b", "\u{200b}", "😀", "\u{feff}", "q'\"\\\u{7f}\u{1b}"] {
        assert_eq!(show_frame(&Frame::Pair { name: s.into() }), format!("Pair {{ name: {:?} }}", s));
    }
    assert_eq!(show_frame(&Frame::Pair { name: "e\u{301}\u{85}".into() }), "Pair { name: \"e\\u{301}\\u{85}\" }");
}

#[test]
fn fake_watcher_announces_changes_only() {
    let clip = |t: &str| Clip { mime: "text/plain".into(), data: t.as_bytes().to_vec() };
    let mut last = None;
    assert!(fake_poll(&mut last, None).is_none());
    assert_eq!(fake_poll(&mut last, Some(clip("a"))), Some(clip("a")));
    assert_eq!(last, Some(clip("a")));
    assert!(fake_poll(&mut last, Some(clip("a"))).is_none());
    assert_eq!(fake_poll(&mut last, Some(clip("b"))), Some(clip("b")));
    assert!(fake_poll(&mut last, None).is_none());
    assert_eq!(last, None);
    assert_eq!(fake_poll(&mut last, Some(clip("b"))), Some(clip("b")));
}
