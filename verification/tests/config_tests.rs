use clipboard_bridge::config::stamp_of_clock;
use clipboard_bridge::config::{
    civil_from_days, default_bind, default_port, now, utc_stamp, GuestConfig, HostConfig, PairedGuest,
};
use clipboard_bridge::protocol::DEFAULT_PORT;

fn guest(id: &str, name: &str) -> PairedGuest {
    PairedGuest { id: id.to_string(), name: name.to_string(), secret: "00".to_string(), paired_at: String::new() }
}

#[test]
fn civil_epoch_and_neighbours() {
    assert_eq!(civil_from_days(0), (1970, 1, 1));
    assert_eq!(civil_from_days(-1), (1969, 12, 31));
    assert_eq!(civil_from_days(31), (1970, 2, 1));
    assert_eq!(civil_from_days(59), (1970, 3, 1));
}

#[test]
fn civil_leap_days() {
    assert_eq!(civil_from_days(11016), (2000, 2, 29));
    assert_eq!(civil_from_days(11017), (2000, 3, 1));
    // 2100 is not a leap year.
    assert_eq!(civil_from_days(47540), (2100, 2, 28));
    assert_eq!(civil_from_days(47541), (2100, 3, 1));
}

#[test]
fn civil_far_past() {
    assert_eq!(civil_from_days(-719_468), (0, 3, 1));
    assert_eq!(civil_from_days(-719_469), (0, 2, 29));
}

#[test]
fn utc_stamps() {
    assert_eq!(utc_stamp(0), "1970-01-01T00:00:00Z");
    assert_eq!(utc_stamp(86399), "1970-01-01T23:59:59Z");
    assert_eq!(utc_stamp(951_782_400), "2000-02-29T00:00:00Z");
    assert_eq!(utc_stamp(1_700_000_000), "2023-11-14T22:13:20Z");
    assert_eq!(utc_stamp(4_102_444_800), "2100-01-01T00:00:00Z");
}

#[test]
fn now_has_timestamp_shape() {
    let s = now();
    assert_eq!(s.len(), 20);
    let b = s.as_bytes();
    assert_eq!(b[4], b'-');
    assert_eq!(b[10], b'T');
    assert_eq!(b[19], b'Z');
    assert!(s.as_str() >= "2024");
}

#[test]
fn guest_paired_needs_id_and_secret() {
    let mut c = GuestConfig::unconfigured();
    assert_eq!(c.port, DEFAULT_PORT);
    assert!(!c.paired());
    c.id = "a".into();
    assert!(!c.paired());
    c.secret = "b".into();
    assert!(c.paired());
    c.host_name = "mac".into();
    c.host = "10.0.0.2".into();
    c.clear_pairing();
    assert!(!c.paired());
    assert_eq!(c.host_name, "mac");
    assert_eq!(c.host, "10.0.0.2");
    c.id = "a".into();
    c.secret = "b".into();
    c.forget_host();
    assert!(!c.paired());
    assert_eq!(c.host_name, "");
    assert_eq!(c.host, "10.0.0.2");
}

#[test]
fn guest_default_has_port_zero() {
    let c = GuestConfig::default();
    assert_eq!(c.port, 0);
    assert!(c.host.is_empty());
}

#[test]
fn host_defaults() {
    let h = HostConfig::default();
    assert_eq!(h.bind, "0.0.0.0");
    assert_eq!(h.port, 52017);
    assert!(!h.auto_accept);
    assert!(h.guests.is_empty());
    assert_eq!(default_port(), 52017);
    assert_eq!(default_bind(), "0.0.0.0");
}

#[test]
fn pairing_replaces_same_name_and_keeps_others() {
    let mut h = HostConfig::default();
    h.guests = vec![guest("1", "vm-a"), guest("2", "vm-b"), guest("3", "vm-a")];
    h.record_pairing(guest("4", "vm-a"));
    let ids: Vec<&str> = h.guests.iter().map(|g| g.id.as_str()).collect();
    assert_eq!(ids, vec!["2", "4"]);
    h.record_pairing(guest("5", "vm-c"));
    let ids: Vec<&str> = h.guests.iter().map(|g| g.id.as_str()).collect();
    assert_eq!(ids, vec!["2", "4", "5"]);
    assert_eq!(h.port, 52017);
}

#[test]
fn clock_before_epoch_reads_as_epoch() {
    assert_eq!(stamp_of_clock(None), "1970-01-01T00:00:00Z");
    assert_eq!(stamp_of_clock(Some(0)), "1970-01-01T00:00:00Z");
    assert_eq!(stamp_of_clock(Some(86_400 + 3_661)), "1970-01-02T01:01:01Z");
}
