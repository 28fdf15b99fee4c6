use clipboard_bridge::config::{GuestConfig, HostConfig, PairedGuest, State};
use clipboard_bridge::service::{
    guest_status, host_status, launchd_plist, launchd_state, link_status, status_role_is_host, systemd_state,
    systemd_unit, LABEL, UNIT,
};

#[test]
fn unit_file() {
    assert_eq!(UNIT, "clipboard-bridge.service");
    assert_eq!(
        systemd_unit("/home/u/.local/bin/clipboard-bridge"),
        "[Unit]\nDescription=Clipboard bridge to the macOS host (Parallels)\nPartOf=graphical-session.target\nAfter=graphical-session.target\n\n[Service]\nType=simple\nExecStart=/home/u/.local/bin/clipboard-bridge connect\nRestart=always\nRestartSec=3\n\n[Install]\nWantedBy=graphical-session.target\n"
    );
}

#[test]
fn plist_file() {
    let p = launchd_plist("/bin/cb", "/tmp/cb.log");
    assert!(p.starts_with("<?xml version=\"1.0\" encoding=\"UTF-8\"?>\n"));
    assert!(p.contains(&format!("<key>Label</key><string>{LABEL}</string>")));
    assert!(p.contains("<array><string>/bin/cb</string><string>serve</string></array>"));
    assert_eq!(p.matches("<string>/tmp/cb.log</string>").count(), 2);
    assert!(p.ends_with("</dict>\n</plist>\n"));
}

#[test]
fn service_states() {
    assert_eq!(launchd_state(false, "state = running"), "not installed");
    assert_eq!(launchd_state(true, "x\n\tstate = running\n"), "running");
    assert_eq!(launchd_state(true, "state = waiting"), "loaded");
    assert_eq!(systemd_state(Some("active\n")), "active");
    assert_eq!(systemd_state(None), "unknown");
}

#[test]
fn status_role() {
    assert!(status_role_is_host(Some("host"), false));
    assert!(!status_role_is_host(Some("guest"), true));
    assert!(status_role_is_host(None, true));
    assert!(!status_role_is_host(None, false));
}

#[test]
fn status_lines() {
    let mut h = HostConfig::default();
    assert_eq!(host_status(&h), "listen:   0.0.0.0:52017\npaired:   none\n");
    h.guests.push(PairedGuest { id: "1".into(), name: "vm-a".into(), secret: String::new(), paired_at: String::new() });
    h.guests.push(PairedGuest { id: "2".into(), name: "vm-b".into(), secret: String::new(), paired_at: String::new() });
    assert_eq!(host_status(&h), "listen:   0.0.0.0:52017\npaired:   vm-a, vm-b\n");
    let mut g = GuestConfig::unconfigured();
    assert_eq!(guest_status(&g), "host:     auto (mDNS, then gateway .2)\npaired:   no\n");
    g.host = "10.0.0.2".into();
    g.id = "i".into();
    g.secret = "s".into();
    g.host_name = "mac".into();
    assert_eq!(guest_status(&g), "host:     10.0.0.2\npaired:   yes, with \"mac\"\n");
    assert_eq!(link_status(None), "link:     no state yet (daemon not running?)\n");
    let st = State { role: "guest".into(), connected: true, peer: "mac".into(), detail: "up".into(), updated: "T".into() };
    assert_eq!(link_status(Some(&st)), "link:     connected (mac)\ndetail:   up (as of T)\n");
    let st = State { role: "guest".into(), connected: false, peer: String::new(), detail: "d".into(), updated: "T".into() };
    assert_eq!(link_status(Some(&st)), "link:     not connected\ndetail:   d (as of T)\n");
}
