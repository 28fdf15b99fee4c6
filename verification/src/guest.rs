//! Guest mode: the decisions of a guest session. Finding the host, the
//! connection and the clipboard stay with the daemon; here are the answers to
//! each handshake frame, the pairing bookkeeping and the retry policy.

use vstd::prelude::*;

use crate::clip::push_vec;
use crate::config::{now, GuestConfig, State, is_utc_stamp};
use crate::protocol::{challenge_mac, hmac_hex, maybe_frame_debug, push_maybe_frame, Frame, VERSION};
use crate::text::{contains_seq, decimal, push_decimal, str_contains, string_of, chars_of};
use vstd::utf8::encode_utf8;

verus! {

/// Command-line overrides for a guest run.
pub struct Options {
    pub host: Option<String>,
    pub port: Option<u16>,
    /// Exit once paired and connected (used by `pair`).
    pub once: bool,
}

/// Applies the command-line overrides to the configuration.
pub fn apply_options(cfg: &mut GuestConfig, opts: &Options)
    ensures
        final(cfg).host@ == (match opts.host {
            Some(h) => h@,
            None => old(cfg).host@,
        }),
        final(cfg).port == (match opts.port {
            Some(p) => p,
            None => old(cfg).port,
        }),
        final(cfg).id == old(cfg).id,
        final(cfg).secret == old(cfg).secret,
        final(cfg).host_name == old(cfg).host_name,
{
    if let Some(h) = &opts.host {
        cfg.host = h.clone();
    }
    if let Some(p) = opts.port {
        cfg.port = p;
    }
}

/// A way of finding the host, in the order the guest tries them.
#[derive(Debug, PartialEq, Eq)]
pub enum Lookup {
    /// The address in the configuration.
    Configured,
    /// mDNS discovery.
    Mdns,
    /// The gateway convention of the shared network.
    Gateway,
    /// Nothing found the host.
    NotFound,
}

/// The first way to try: the configured address when there is one, else mDNS.
pub fn first_lookup(host: &str) -> (l: Lookup)
    ensures
        l == (if host@.len() > 0 {
            Lookup::Configured
        } else {
            Lookup::Mdns
        }),
{
    if host.is_empty() {
        Lookup::Mdns
    } else {
        Lookup::Configured
    }
}

/// The way to try when `l` found nothing: after mDNS the gateway, after that
/// nothing. A configured address is not looked past: a bad one is an error.
pub fn next_lookup(l: &Lookup) -> (n: Lookup)
    ensures
        n == match *l {
            Lookup::Mdns => Lookup::Gateway,
            _ => Lookup::NotFound,
        },
{
    match l {
        Lookup::Mdns => Lookup::Gateway,
        _ => Lookup::NotFound,
    }
}

/// How the log names the way the host was found; `service` is the name mDNS
/// gave.
pub fn lookup_label(l: &Lookup, service: &str) -> (s: String)
    ensures
        s@ == match *l {
            Lookup::Configured => "config"@,
            Lookup::Mdns => "mDNS "@ + service@,
            Lookup::Gateway => "gateway fallback"@,
            Lookup::NotFound => "none"@,
        },
{
    match l {
        Lookup::Configured => String::from_str("config"),
        Lookup::Mdns => {
            let mut out = chars_of("mDNS ");
            push_vec(&mut out, &chars_of(service));
            string_of(&out)
        },
        Lookup::Gateway => String::from_str("gateway fallback"),
        Lookup::NotFound => String::from_str("none"),
    }
}

/// The error when the configured host is not an IP address.
pub fn bad_host_message() -> (s: String)
    ensures
        s@ == "HOST must be an IP address"@,
{
    String::from_str("HOST must be an IP address")
}

/// The error when no way found the host.
pub fn no_host_message() -> (s: String)
    ensures
        s@ == "could not determine host address; set host = \"...\" in guest.toml"@,
{
    String::from_str("could not determine host address; set host = \"...\" in guest.toml")
}

/// Why a handshake ended.
#[derive(Debug)]
pub enum HandshakeError {
    /// The host speaks another protocol version.
    VersionMismatch { host: u32 },
    /// The first frame was not a challenge.
    UnexpectedHandshake(Option<Frame>),
    /// The host did not answer a pairing request with a code.
    ExpectedPairCode(Option<Frame>),
    /// The person at the host denied the pairing.
    PairingDenied { reason: String },
    /// The host answered the pairing with something else.
    UnexpectedPairingReply(Option<Frame>),
    /// The host refused the authentication.
    HostRefused { error: String },
    /// The host answered the authentication with something else.
    UnexpectedReply(Option<Frame>),
}

impl HandshakeError {
    /// The message the failure is reported with.
    pub fn message(&self) -> (s: String)
        ensures
            s@ == match *self {
                HandshakeError::VersionMismatch { host } => "host speaks protocol v"@ + decimal(
                    host as nat,
                ) + ", this build speaks v"@ + decimal(VERSION as nat),
                HandshakeError::UnexpectedHandshake(f) => "unexpected handshake from host: "@
                    + maybe_frame_debug(f),
                HandshakeError::ExpectedPairCode(f) => "expected pairing code, got "@
                    + maybe_frame_debug(f),
                HandshakeError::PairingDenied { reason } => "pairing denied: "@ + reason@,
                HandshakeError::UnexpectedPairingReply(f) => "unexpected reply while pairing: "@
                    + maybe_frame_debug(f),
                HandshakeError::HostRefused { error } => "host refused: "@ + error@,
                HandshakeError::UnexpectedReply(f) => "unexpected reply: "@ + maybe_frame_debug(f),
            },
    {
        let mut out: Vec<char> = Vec::new();
        match self {
            HandshakeError::VersionMismatch { host } => {
                push_vec(&mut out, &chars_of("host speaks protocol v"));
                push_decimal(&mut out, *host as u64);
                push_vec(&mut out, &chars_of(", this build speaks v"));
                push_decimal(&mut out, VERSION as u64);
            },
            HandshakeError::UnexpectedHandshake(f) => {
                push_vec(&mut out, &chars_of("unexpected handshake from host: "));
                push_maybe_frame(&mut out, f);
            },
            HandshakeError::ExpectedPairCode(f) => {
                push_vec(&mut out, &chars_of("expected pairing code, got "));
                push_maybe_frame(&mut out, f);
            },
            HandshakeError::PairingDenied { reason } => {
                push_vec(&mut out, &chars_of("pairing denied: "));
                push_vec(&mut out, &chars_of(reason.as_str()));
            },
            HandshakeError::UnexpectedPairingReply(f) => {
                push_vec(&mut out, &chars_of("unexpected reply while pairing: "));
                push_maybe_frame(&mut out, f);
            },
            HandshakeError::HostRefused { error } => {
                push_vec(&mut out, &chars_of("host refused: "));
                push_vec(&mut out, &chars_of(error.as_str()));
            },
            HandshakeError::UnexpectedReply(f) => {
                push_vec(&mut out, &chars_of("unexpected reply: "));
                push_maybe_frame(&mut out, f);
            },
        }
        string_of(&out)
    }
}

/// Reads the host's opening frame: a challenge in this protocol version gives
/// the host's name and the nonce to answer.
pub fn check_challenge(frame: Option<Frame>) -> (r: Result<(String, String), HandshakeError>)
    ensures
        match frame {
            Some(Frame::Challenge { v, name, nonce }) => if v == VERSION {
                r matches Ok((n, c)) && n@ == name@ && c@ == nonce@
            } else {
                r matches Err(HandshakeError::VersionMismatch { host }) && host == v
            },
            _ => r matches Err(HandshakeError::UnexpectedHandshake(f)) && f == frame,
        },
{
    match frame {
        Some(Frame::Challenge { v, name, nonce }) => {
            if v != VERSION {
                return Err(HandshakeError::VersionMismatch { host: v });
            }
            Ok((name, nonce))
        },
        other => Err(HandshakeError::UnexpectedHandshake(other)),
    }
}

/// The guest's answer to the challenge: a paired guest authenticates with its
/// id and the HMAC of the nonce under its secret; an unpaired one asks to pair.
pub fn hello(cfg: &GuestConfig, my_name: &str, nonce: &str) -> (f: Frame)
    ensures
        cfg.is_paired() ==> (f matches Frame::Auth { id, name, mac } && id@ == cfg.id@ && name@
            == my_name@ && mac@ == challenge_mac(encode_utf8(cfg.secret@), encode_utf8(nonce@))),
        !cfg.is_paired() ==> (f matches Frame::Pair { name } && name@ == my_name@),
{
    if cfg.paired() {
        Frame::Auth {
            id: cfg.id.clone(),
            name: String::from_str(my_name),
            mac: hmac_hex(cfg.secret.as_str(), nonce),
        }
    } else {
        Frame::Pair { name: String::from_str(my_name) }
    }
}

/// Reads the host's answer to a pairing request: the code to show.
pub fn expect_pair_code(frame: Option<Frame>) -> (r: Result<String, HandshakeError>)
    ensures
        match frame {
            Some(Frame::PairCode { code }) => r matches Ok(c) && c@ == code@,
            _ => r matches Err(HandshakeError::ExpectedPairCode(f)) && f == frame,
        },
{
    match frame {
        Some(Frame::PairCode { code }) => Ok(code),
        other => Err(HandshakeError::ExpectedPairCode(other)),
    }
}

/// Reads the outcome of a pairing: on approval the guest keeps the id and
/// secret it was given and the host's name; a denial or anything else is an
/// error and leaves the configuration as it was.
pub fn accept_pairing(cfg: &mut GuestConfig, frame: Option<Frame>, host_name: &str) -> (r: Result<
    (),
    HandshakeError,
>)
    ensures
        match frame {
            Some(Frame::Paired { id, secret }) => r is Ok && final(cfg).id@ == id@
                && final(cfg).secret@ == secret@ && final(cfg).host_name@ == host_name@
                && final(cfg).host == old(cfg).host && final(cfg).port == old(cfg).port,
            Some(Frame::PairDenied { reason }) => r matches Err(
                HandshakeError::PairingDenied { reason: why },
            ) && why@ == reason@ && *final(cfg) == *old(cfg),
            _ => r matches Err(HandshakeError::UnexpectedPairingReply(f)) && f == frame
                && *final(cfg) == *old(cfg),
        },
{
    match frame {
        Some(Frame::Paired { id, secret }) => {
            cfg.id = id;
            cfg.secret = secret;
            cfg.host_name = String::from_str(host_name);
            Ok(())
        },
        Some(Frame::PairDenied { reason }) => Err(HandshakeError::PairingDenied { reason }),
        other => Err(HandshakeError::UnexpectedPairingReply(other)),
    }
}

/// How an authentication ended without error.
#[derive(Debug)]
pub enum AuthReply {
    /// The link is up.
    Connected,
    /// The host no longer knows this guest; the pairing was dropped so that the
    /// next connection pairs again.
    Forgotten,
}

/// The text by which a host's refusal says that it does not know the guest.
pub open spec fn unknown_guest_text() -> Seq<char> {
    "unknown guest"@
}

/// Reads the host's verdict on the handshake. If the host no longer knows the
/// guest, the pairing is dropped.
pub fn on_auth_reply(cfg: &mut GuestConfig, frame: Option<Frame>) -> (r: Result<
    AuthReply,
    HandshakeError,
>)
    ensures
        match frame {
            Some(Frame::Okay { .. }) => r matches Ok(AuthReply::Connected) && *final(cfg) == *old(cfg),
            Some(Frame::Error { error }) => if contains_seq(error@, unknown_guest_text()) {
                &&& r matches Ok(AuthReply::Forgotten)
                &&& final(cfg).id@.len() == 0
                &&& final(cfg).secret@.len() == 0
                &&& !final(cfg).is_paired()
                &&& final(cfg).host == old(cfg).host
                &&& final(cfg).port == old(cfg).port
                &&& final(cfg).host_name == old(cfg).host_name
            } else {
                r matches Err(HandshakeError::HostRefused { error: e }) && e@ == error@ && *final(cfg) == *old(cfg)
            },
            _ => r matches Err(HandshakeError::UnexpectedReply(f)) && f == frame && *final(cfg)
                == *old(cfg),
        },
{
    match frame {
        Some(Frame::Okay { .. }) => Ok(AuthReply::Connected),
        Some(Frame::Error { error }) => {
            if str_contains(error.as_str(), "unknown guest") {
                cfg.clear_pairing();
                Ok(AuthReply::Forgotten)
            } else {
                Err(HandshakeError::HostRefused { error })
            }
        },
        other => Err(HandshakeError::UnexpectedReply(other)),
    }
}

/// How a session ended, as the retry loop sees it.
pub enum SessionEnd {
    /// Paired and connected, and the run asked to stop there.
    Finished,
    /// The link went down normally.
    Disconnected,
    /// The session failed with this message.
    Failed(String),
}

/// How the link of a connected session ended.
pub enum LinkEnd {
    /// The host closed the connection cleanly.
    Closed,
    /// Reading, writing or decoding failed, with this message.
    Error(String),
}

/// The end of a connected session, as the retry loop sees it: a clean close by
/// the host is a normal disconnect (so the next attempt comes after a second);
/// a failure fails the session with its message.
pub fn link_end(end: LinkEnd) -> (e: SessionEnd)
    ensures
        match end {
            LinkEnd::Closed => e is Disconnected,
            LinkEnd::Error(m) => e matches SessionEnd::Failed(x) && x@ == m@,
        },
{
    match end {
        LinkEnd::Closed => SessionEnd::Disconnected,
        LinkEnd::Error(m) => SessionEnd::Failed(m),
    }
}

/// What the retry loop does next.
#[derive(Debug, PartialEq, Eq)]
pub enum Retry {
    /// The run is complete.
    Stop,
    /// Report the failure and end the run.
    GiveUp,
    /// Wait this many seconds, then try again; `next` is the backoff after that.
    Wait { seconds: u64, next: u64 },
}

/// The wait before reconnecting: one second after a clean disconnect, a
/// minute after a denial, else the current backoff.
pub open spec fn wait_after(backoff: u64, end: SessionEnd) -> u64 {
    match end {
        SessionEnd::Disconnected => 1,
        SessionEnd::Failed(msg) => if contains_seq(msg@, "denied"@) { 60 } else { backoff },
        SessionEnd::Finished => backoff,
    }
}

/// The reconnect policy: stop when a one-shot run is done or has failed;
/// otherwise wait (see [`wait_after`]) and double the wait for next time, up
/// to 15 seconds.
pub fn after_session(backoff: u64, end: &SessionEnd, once: bool) -> (r: Retry)
    requires
        backoff <= u64::MAX / 2,
    ensures
        match *end {
            SessionEnd::Finished => r == Retry::Stop,
            SessionEnd::Failed(_) if once => r == Retry::GiveUp,
            _ => r == Retry::Wait {
                seconds: wait_after(backoff, *end),
                next: if 2 * wait_after(backoff, *end) < 15 {
                    (2 * wait_after(backoff, *end)) as u64
                } else {
                    15
                },
            },
        },
{
    let wait = match end {
        SessionEnd::Finished => {
            return Retry::Stop;
        },
        SessionEnd::Disconnected => 1,
        SessionEnd::Failed(msg) => {
            if once {
                return Retry::GiveUp;
            }
            if str_contains(msg.as_str(), "denied") {
                60
            } else {
                backoff
            }
        },
    };
    let doubled = wait * 2;
    Retry::Wait { seconds: wait, next: if doubled < 15 { doubled } else { 15 } }
}

/// The reconnect policy keeps the backoff between 1 and 15 seconds after the
/// first retry, and never waits longer than a minute.
pub proof fn lemma_backoff_bounded(backoff: u64, end: SessionEnd)
    requires
        1 <= backoff <= 60,
    ensures
        1 <= wait_after(backoff, end) <= 60,
        ({
            let w = wait_after(backoff, end);
            let next = if 2 * w < 15 { 2 * w } else { 15 };
            1 <= next <= 15
        }),
{
}

/// The backoff after waiting `w` seconds: doubled, up to 15.
pub open spec fn next_backoff(w: int) -> int {
    if 2 * w < 15 {
        2 * w
    } else {
        15
    }
}

/// The wait before the `k`-th retry (counting from 0) of a run that keeps
/// failing for reasons other than a denial, starting from a one-second backoff.
pub open spec fn failure_wait(k: nat) -> int
    decreases k,
{
    if k == 0 {
        1
    } else {
        next_backoff(failure_wait((k - 1) as nat))
    }
}

/// Failures that are not denials wait 1, 2, 4, 8, then 15 seconds for good:
/// each such failure waits the current backoff and hands on the next value of
/// the sequence.
pub proof fn lemma_backoff_sequence(k: nat, msg: String)
    requires
        !contains_seq(msg@, "denied"@),
    ensures
        failure_wait(k) == (if k == 0 {
            1int
        } else if k == 1 {
            2
        } else if k == 2 {
            4
        } else if k == 3 {
            8
        } else {
            15
        }),
        wait_after(failure_wait(k) as u64, SessionEnd::Failed(msg)) == failure_wait(k),
        next_backoff(wait_after(failure_wait(k) as u64, SessionEnd::Failed(msg)) as int)
            == failure_wait(k + 1),
    decreases k,
{
    if k > 0 {
        lemma_backoff_sequence((k - 1) as nat, msg);
    }
    assert(failure_wait(k + 1) == next_backoff(failure_wait(k)));
}

/// A denied pairing is reported with a message that makes the retry loop wait
/// a full minute; a clean disconnect retries after a second.
pub proof fn lemma_denial_waits_a_minute(backoff: u64, msg: String, reason: Seq<char>)
    requires
        msg@ == "pairing denied: "@ + reason,
    ensures
        wait_after(backoff, SessionEnd::Failed(msg)) == 60,
        wait_after(backoff, SessionEnd::Disconnected) == 1,
{
    reveal_strlit("pairing denied: ");
    reveal_strlit("denied");
    assert(msg@.subrange(8, 14) =~= "denied"@);
    assert(msg@.subrange(8, 8 + "denied"@.len() as int) == "denied"@);
}

/// The status detail while waiting to reconnect.
pub fn reconnect_detail(seconds: u64) -> (s: String)
    ensures
        s@ == "reconnecting in "@ + decimal(seconds as nat) + "s"@,
{
    let mut out = chars_of("reconnecting in ");
    push_decimal(&mut out, seconds);
    let tail = chars_of("s");
    push_vec(&mut out, &tail);
    string_of(&out)
}

/// The state a guest reports, stamped with the current time.
pub fn guest_state(connected: bool, peer: &str, detail: &str) -> (st: State)
    ensures
        st.role@ == "guest"@,
        st.connected == connected,
        st.peer@ == peer@,
        st.detail@ == detail@,
        exists|secs: u64| #[trigger] is_utc_stamp(st.updated@, secs as int),
{
    let updated = now();
    let ghost secs = choose|secs: u64| #[trigger] is_utc_stamp(updated@, secs as int);
    let st = State {
        role: String::from_str("guest"),
        connected,
        peer: String::from_str(peer),
        detail: String::from_str(detail),
        updated,
    };
    assert(is_utc_stamp(st.updated@, secs as int));
    st
}

} // verus!
