//! Installing the daemon as a user service (systemd on Linux, launchd on
//! macOS): the files it writes and how `status` reads and reports the state.

use vstd::prelude::*;

use crate::clip::push_vec;
use crate::config::{GuestConfig, HostConfig, PairedGuest, State};
use crate::host::joined;
use crate::text::{chars_of, contains_seq, lemma_contains_within, decimal, push_decimal, str_contains, str_equal, string_of, trim, trimmed};

verus! {

/// The systemd user unit's name.
pub const UNIT: &'static str = "clipboard-bridge.service";

/// The launchd agent's label.
pub const LABEL: &'static str = "com.omarchy.clipboard-bridge";

/// The systemd user unit that runs `exe connect` with the graphical session.
pub open spec fn unit_text(exe: Seq<char>) -> Seq<char> {
    "[Unit]\nDescription=Clipboard bridge to the macOS host (Parallels)\nPartOf=graphical-session.target\nAfter=graphical-session.target\n\n[Service]\nType=simple\nExecStart="@
        + exe + " connect\nRestart=always\nRestartSec=3\n\n[Install]\nWantedBy=graphical-session.target\n"@
}

/// The systemd user unit for the guest daemon at `exe`.
pub fn systemd_unit(exe: &str) -> (s: String)
    ensures
        s@ == unit_text(exe@),
{
    let mut out = chars_of(
        "[Unit]\nDescription=Clipboard bridge to the macOS host (Parallels)\nPartOf=graphical-session.target\nAfter=graphical-session.target\n\n[Service]\nType=simple\nExecStart=",
    );
    push_vec(&mut out, &chars_of(exe));
    push_vec(
        &mut out,
        &chars_of(" connect\nRestart=always\nRestartSec=3\n\n[Install]\nWantedBy=graphical-session.target\n"),
    );
    string_of(&out)
}

/// The launchd agent that runs `exe serve` at login and logs to `log`.
pub open spec fn plist_text(exe: Seq<char>, log: Seq<char>) -> Seq<char> {
    "<?xml version=\"1.0\" encoding=\"UTF-8\"?>\n<!DOCTYPE plist PUBLIC \"-//Apple//DTD PLIST 1.0//EN\" \"http://www.apple.com/DTDs/PropertyList-1.0.dtd\">\n<plist version=\"1.0\">\n<dict>\n    <key>Label</key><string>com.omarchy.clipboard-bridge</string>\n    <key>ProgramArguments</key><array><string>"@
        + exe
        + "</string><string>serve</string></array>\n    <key>RunAtLoad</key><true/>\n    <key>KeepAlive</key><true/>\n    <key>ThrottleInterval</key><integer>3</integer>\n    <key>ProcessType</key><string>Interactive</string>\n    <key>StandardOutPath</key><string>"@
        + log + "</string>\n    <key>StandardErrorPath</key><string>"@ + log
        + "</string>\n</dict>\n</plist>\n"@
}

/// The launchd agent starts the host daemon at login and keeps it running:
/// its program arguments are `exe` and `serve`, and RunAtLoad and KeepAlive
/// are both true.
pub proof fn lemma_agent_runs_at_login_and_stays_alive(exe: Seq<char>, log: Seq<char>)
    ensures
        contains_seq(plist_text(exe, log), "<key>RunAtLoad</key><true/>"@),
        contains_seq(plist_text(exe, log), "<key>KeepAlive</key><true/>"@),
        contains_seq(
            plist_text(exe, log),
            "<array><string>"@ + exe + "</string><string>serve</string></array>"@,
        ),
{
    let a = "<?xml version=\"1.0\" encoding=\"UTF-8\"?>\n<!DOCTYPE plist PUBLIC \"-//Apple//DTD PLIST 1.0//EN\" \"http://www.apple.com/DTDs/PropertyList-1.0.dtd\">\n<plist version=\"1.0\">\n<dict>\n    <key>Label</key><string>com.omarchy.clipboard-bridge</string>\n    <key>ProgramArguments</key><array><string>"@;
    let b = "</string><string>serve</string></array>\n    <key>RunAtLoad</key><true/>\n    <key>KeepAlive</key><true/>\n    <key>ThrottleInterval</key><integer>3</integer>\n    <key>ProcessType</key><string>Interactive</string>\n    <key>StandardOutPath</key><string>"@;
    let c = "</string>\n    <key>StandardErrorPath</key><string>"@;
    let d = "</string>\n</dict>\n</plist>\n"@;
    reveal_strlit("<?xml version=\"1.0\" encoding=\"UTF-8\"?>\n<!DOCTYPE plist PUBLIC \"-//Apple//DTD PLIST 1.0//EN\" \"http://www.apple.com/DTDs/PropertyList-1.0.dtd\">\n<plist version=\"1.0\">\n<dict>\n    <key>Label</key><string>com.omarchy.clipboard-bridge</string>\n    <key>ProgramArguments</key><array><string>");
    reveal_strlit("</string><string>serve</string></array>\n    <key>RunAtLoad</key><true/>\n    <key>KeepAlive</key><true/>\n    <key>ThrottleInterval</key><integer>3</integer>\n    <key>ProcessType</key><string>Interactive</string>\n    <key>StandardOutPath</key><string>");
    reveal_strlit("<key>RunAtLoad</key><true/>");
    reveal_strlit("<key>KeepAlive</key><true/>");
    reveal_strlit("<array><string>");
    reveal_strlit("</string><string>serve</string></array>");
    let t = plist_text(exe, log);
    assert(t =~= (a + exe) + b + (log + c + log + d));
    let run = "<key>RunAtLoad</key><true/>"@;
    let keep = "<key>KeepAlive</key><true/>"@;
    assert(b.subrange(44, 44 + run.len() as int) =~= run);
    assert(b.subrange(76, 76 + keep.len() as int) =~= keep);
    lemma_contains_within(a + exe, b, log + c + log + d, run);
    lemma_contains_within(a + exe, b, log + c + log + d, keep);
    let args = "<array><string>"@ + exe + "</string><string>serve</string></array>"@;
    assert(t.subrange(268, 268 + args.len() as int) =~= args);
}

/// The systemd unit runs `exe connect` and restarts it whenever it stops.
pub proof fn lemma_unit_runs_connect_and_restarts(exe: Seq<char>)
    ensures
        contains_seq(unit_text(exe), "ExecStart="@ + exe + " connect"@),
        contains_seq(unit_text(exe), "Restart=always"@),
{
    let u = "[Unit]\nDescription=Clipboard bridge to the macOS host (Parallels)\nPartOf=graphical-session.target\nAfter=graphical-session.target\n\n[Service]\nType=simple\nExecStart="@;
    let tail = " connect\nRestart=always\nRestartSec=3\n\n[Install]\nWantedBy=graphical-session.target\n"@;
    reveal_strlit("[Unit]\nDescription=Clipboard bridge to the macOS host (Parallels)\nPartOf=graphical-session.target\nAfter=graphical-session.target\n\n[Service]\nType=simple\nExecStart=");
    reveal_strlit(" connect\nRestart=always\nRestartSec=3\n\n[Install]\nWantedBy=graphical-session.target\n");
    reveal_strlit("ExecStart=");
    reveal_strlit(" connect");
    reveal_strlit("Restart=always");
    let t = unit_text(exe);
    let start = "ExecStart="@ + exe + " connect"@;
    assert(t.subrange(152, 152 + start.len() as int) =~= start);
    let restart = "Restart=always"@;
    assert(tail.subrange(9, 9 + restart.len() as int) =~= restart);
    assert(t =~= (u + exe) + tail + Seq::<char>::empty());
    lemma_contains_within(u + exe, tail, Seq::<char>::empty(), restart);
}

/// The launchd agent for the host daemon at `exe`, logging to `log`.
pub fn launchd_plist(exe: &str, log: &str) -> (s: String)
    ensures
        s@ == plist_text(exe@, log@),
{
    let mut out = chars_of(
        "<?xml version=\"1.0\" encoding=\"UTF-8\"?>\n<!DOCTYPE plist PUBLIC \"-//Apple//DTD PLIST 1.0//EN\" \"http://www.apple.com/DTDs/PropertyList-1.0.dtd\">\n<plist version=\"1.0\">\n<dict>\n    <key>Label</key><string>com.omarchy.clipboard-bridge</string>\n    <key>ProgramArguments</key><array><string>",
    );
    push_vec(&mut out, &chars_of(exe));
    push_vec(
        &mut out,
        &chars_of(
            "</string><string>serve</string></array>\n    <key>RunAtLoad</key><true/>\n    <key>KeepAlive</key><true/>\n    <key>ThrottleInterval</key><integer>3</integer>\n    <key>ProcessType</key><string>Interactive</string>\n    <key>StandardOutPath</key><string>",
        ),
    );
    push_vec(&mut out, &chars_of(log));
    push_vec(&mut out, &chars_of("</string>\n    <key>StandardErrorPath</key><string>"));
    push_vec(&mut out, &chars_of(log));
    push_vec(&mut out, &chars_of("</string>\n</dict>\n</plist>\n"));
    string_of(&out)
}

/// The state of the launchd agent from `launchctl print`: not installed when
/// the command failed, running when its output says so, else loaded.
pub fn launchd_state(print_succeeded: bool, output: &str) -> (s: String)
    ensures
        s@ == (if !print_succeeded {
            "not installed"@
        } else if contains_seq(output@, "state = running"@) {
            "running"@
        } else {
            "loaded"@
        }),
{
    if !print_succeeded {
        String::from_str("not installed")
    } else if str_contains(output, "state = running") {
        String::from_str("running")
    } else {
        String::from_str("loaded")
    }
}

/// The state of the systemd unit from `systemctl is-active`: its trimmed
/// output, or "unknown" when the command could not run.
pub fn systemd_state(output: Option<&str>) -> (s: String)
    ensures
        s@ == match output {
            Some(o) => trim(o@),
            None => "unknown"@,
        },
{
    match output {
        Some(o) => string_of(&trimmed(&chars_of(o))),
        None => String::from_str("unknown"),
    }
}

/// Which role `status` describes: the one the daemon last reported, or the
/// one the OS implies when there is no report.
pub fn status_role_is_host(reported_role: Option<&str>, os_is_host: bool) -> (host: bool)
    ensures
        host == match reported_role {
            Some(r) => r@ == "host"@,
            None => os_is_host,
        },
{
    match reported_role {
        Some(r) => str_equal(r, "host"),
        None => os_is_host,
    }
}

/// The names of the paired guests.
pub open spec fn guest_names(gs: Seq<PairedGuest>) -> Seq<Seq<char>> {
    gs.map_values(|g: PairedGuest| g.name@)
}

/// The host's lines of `status`: where it listens, and whom it has paired.
pub open spec fn host_status_text(bind: Seq<char>, port: u16, gs: Seq<PairedGuest>) -> Seq<char> {
    "listen:   "@ + bind + ":"@ + decimal(port as nat) + "\npaired:   "@ + (if gs.len() == 0 {
        "none"@
    } else {
        joined(guest_names(gs), ", "@)
    }) + "\n"@
}

/// The host's lines of `status`.
pub fn host_status(cfg: &HostConfig) -> (s: String)
    ensures
        s@ == host_status_text(cfg.bind@, cfg.port, cfg.guests@),
{
    let mut out = chars_of("listen:   ");
    push_vec(&mut out, &chars_of(cfg.bind.as_str()));
    push_vec(&mut out, &chars_of(":"));
    push_decimal(&mut out, cfg.port as u64);
    push_vec(&mut out, &chars_of("\npaired:   "));
    if cfg.guests.len() == 0 {
        push_vec(&mut out, &chars_of("none"));
    } else {
        let ghost names = guest_names(cfg.guests@);
        let ghost start = out@;
        let sep = chars_of(", ");
        let mut i: usize = 0;
        while i < cfg.guests.len()
            invariant
                i <= cfg.guests@.len(),
                names == guest_names(cfg.guests@),
                sep@ == ", "@,
                out@ == start + joined(names.take(i as int), ", "@),
            decreases cfg.guests@.len() - i,
        {
            if i > 0 {
                push_vec(&mut out, &sep);
            }
            push_vec(&mut out, &chars_of(cfg.guests[i].name.as_str()));
            i = i + 1;
            assert(names.take(i as int).drop_last() =~= names.take(i - 1));
            assert(names.take(i as int).last() == cfg.guests@[i - 1].name@);
            if i == 1 {
                assert(names.take(1)[0] == cfg.guests@[0].name@);
            }
        }
        assert(names.take(cfg.guests@.len() as int) =~= names);
    }
    push_vec(&mut out, &chars_of("\n"));
    string_of(&out)
}

/// The guest's lines of `status`: how it finds the host, and whether it is
/// paired.
pub open spec fn guest_status_text(host: Seq<char>, paired: bool, host_name: Seq<char>) -> Seq<char> {
    "host:     "@ + (if host.len() == 0 { "auto (mDNS, then gateway .2)"@ } else { host })
        + "\npaired:   "@ + (if paired { "yes, with \""@ + host_name + "\""@ } else { "no"@ })
        + "\n"@
}

/// The guest's lines of `status`.
pub fn guest_status(cfg: &GuestConfig) -> (s: String)
    ensures
        s@ == guest_status_text(cfg.host@, cfg.is_paired(), cfg.host_name@),
{
    let mut out = chars_of("host:     ");
    if cfg.host.as_str().is_empty() {
        push_vec(&mut out, &chars_of("auto (mDNS, then gateway .2)"));
    } else {
        push_vec(&mut out, &chars_of(cfg.host.as_str()));
    }
    push_vec(&mut out, &chars_of("\npaired:   "));
    if cfg.paired() {
        push_vec(&mut out, &chars_of("yes, with \""));
        push_vec(&mut out, &chars_of(cfg.host_name.as_str()));
        push_vec(&mut out, &chars_of("\""));
    } else {
        push_vec(&mut out, &chars_of("no"));
    }
    push_vec(&mut out, &chars_of("\n"));
    string_of(&out)
}

/// The link lines of `status`, from the state the daemon last wrote.
pub open spec fn link_status_text(state: Option<State>) -> Seq<char> {
    match state {
        Some(s) => "link:     "@ + (if s.connected { "connected"@ } else { "not connected"@ }) + (if s.peer@.len()
            == 0 {
            Seq::empty()
        } else {
            " ("@ + s.peer@ + ")"@
        }) + "\ndetail:   "@ + s.detail@ + " (as of "@ + s.updated@ + ")\n"@,
        None => "link:     no state yet (daemon not running?)\n"@,
    }
}

/// The link lines of `status`.
pub fn link_status(state: Option<&State>) -> (s: String)
    ensures
        s@ == link_status_text(match state {
            Some(st) => Some(*st),
            None => None,
        }),
{
    match state {
        Some(st) => {
            let mut out = chars_of("link:     ");
            if st.connected {
                push_vec(&mut out, &chars_of("connected"));
            } else {
                push_vec(&mut out, &chars_of("not connected"));
            }
            if !st.peer.as_str().is_empty() {
                push_vec(&mut out, &chars_of(" ("));
                push_vec(&mut out, &chars_of(st.peer.as_str()));
                push_vec(&mut out, &chars_of(")"));
            }
            push_vec(&mut out, &chars_of("\ndetail:   "));
            push_vec(&mut out, &chars_of(st.detail.as_str()));
            push_vec(&mut out, &chars_of(" (as of "));
            push_vec(&mut out, &chars_of(st.updated.as_str()));
            push_vec(&mut out, &chars_of(")\n"));
            string_of(&out)
        },
        None => String::from_str("link:     no state yet (daemon not running?)\n"),
    }
}

} // verus!
