//! Host mode: the decisions of the host. Listening, the threads and the
//! clipboard stay with the daemon; here are authentication, the record of a
//! new pairing, and the state the host reports.

use vstd::prelude::*;
use vstd::utf8::encode_utf8;

use crate::config::{accepts, is_utc_stamp, now, PairedGuest, State};
use crate::guest::unknown_guest_text;
use crate::protocol::{challenge_mac, hex_lower, hmac_hex, random_hex, Frame};
use crate::text::{chars_of, contains_seq, decimal, push_decimal, string_of};
use crate::clip::push_vec;

verus! {

/// Whether some paired guest has id `id` and answers the challenge `nonce`
/// with `mac`.
pub fn authenticate(guests: &Vec<PairedGuest>, id: &str, mac: &str, nonce: &str) -> (ok: bool)
    ensures
        ok == accepts(guests@, id@, mac@, nonce@),
{
    let id_owned = String::from_str(id);
    let mac_owned = String::from_str(mac);
    let mut i: usize = 0;
    while i < guests.len()
        invariant
            i <= guests@.len(),
            id_owned@ == id@,
            mac_owned@ == mac@,
            forall|j: int|
                0 <= j < i ==> !((#[trigger] guests@[j]).id@ == id@ && challenge_mac(
                    encode_utf8(guests@[j].secret@),
                    encode_utf8(nonce@),
                ) == mac@),
        decreases guests@.len() - i,
    {
        let g = &guests[i];
        if g.id == id_owned && hmac_hex(g.secret.as_str(), nonce) == mac_owned {
            return true;
        }
        i = i + 1;
    }
    false
}

/// What the guest's first frame asks of the host.
#[derive(Debug)]
pub enum Hello {
    /// A paired guest proved its identity.
    Known { name: String },
    /// An authentication that no paired guest matches.
    Unknown { name: String },
    /// An unpaired guest asks to pair.
    PairRequest { name: String },
    /// Some other frame: the connection is dropped.
    Unexpected(Frame),
    /// The guest hung up before saying anything.
    Closed,
}

/// Sorts the guest's answer to the challenge `nonce`: an authentication is
/// checked against the paired guests; a pairing request, any other frame and
/// the end of the stream are passed on as such.
pub fn on_hello(guests: &Vec<PairedGuest>, nonce: &str, frame: Option<Frame>) -> (h: Hello)
    ensures
        match frame {
            Some(Frame::Auth { id, name, mac }) => if accepts(guests@, id@, mac@, nonce@) {
                h matches Hello::Known { name: n } && n@ == name@
            } else {
                h matches Hello::Unknown { name: n } && n@ == name@
            },
            Some(Frame::Pair { name }) => h matches Hello::PairRequest { name: n } && n@ == name@,
            Some(other) => h matches Hello::Unexpected(f) && f == other,
            None => h is Closed,
        },
{
    match frame {
        Some(Frame::Auth { id, name, mac }) => {
            if authenticate(guests, id.as_str(), mac.as_str(), nonce) {
                Hello::Known { name }
            } else {
                Hello::Unknown { name }
            }
        },
        Some(Frame::Pair { name }) => Hello::PairRequest { name },
        Some(other) => Hello::Unexpected(other),
        None => Hello::Closed,
    }
}

/// The reason a host gives when it does not know the guest.
pub open spec fn refusal_text() -> Seq<char> {
    "unknown guest; pair again"@
}

/// The answer to an authentication that no paired guest matches.
pub fn refusal() -> (f: Frame)
    ensures
        f matches Frame::Error { error } && error@ == refusal_text(),
{
    Frame::Error { error: String::from_str("unknown guest; pair again") }
}

/// The answer to a pairing request that the person at the host denied.
pub fn denial() -> (f: Frame)
    ensures
        f matches Frame::PairDenied { reason } && reason@ == "denied on host"@,
{
    Frame::PairDenied { reason: String::from_str("denied on host") }
}

/// A refused guest drops its pairing and pairs again: the host's refusal
/// holds the text by which the guest recognises that it is no longer known.
pub proof fn lemma_refusal_makes_guest_pair_again()
    ensures
        contains_seq(refusal_text(), unknown_guest_text()),
{
    reveal_strlit("unknown guest; pair again");
    reveal_strlit("unknown guest");
    let p = unknown_guest_text();
    assert(p.len() == 13);
    assert(refusal_text().subrange(0, 13) =~= p);
    assert(refusal_text().subrange(0, 0 + p.len() as int) == p);
}

/// A freshly paired guest: a random 8-byte id and 32-byte secret, both in
/// lower-case hex, stamped with the current time.
pub fn new_guest(name: String) -> (g: PairedGuest)
    ensures
        g.name@ == name@,
        exists|b: Seq<u8>| b.len() == 8 && g.id@ == hex_lower(b),
        exists|b: Seq<u8>| b.len() == 32 && g.secret@ == hex_lower(b),
        exists|secs: u64| #[trigger] is_utc_stamp(g.paired_at@, secs as int),
{
    let id = random_hex(8);
    let secret = random_hex(32);
    let paired_at = now();
    let ghost secs = choose|secs: u64| #[trigger] is_utc_stamp(paired_at@, secs as int);
    let ghost bi = choose|b: Seq<u8>| b.len() == 8 && id@ == hex_lower(b);
    let ghost bs = choose|b: Seq<u8>| b.len() == 32 && secret@ == hex_lower(b);
    let g = PairedGuest { id, name, secret, paired_at };
    assert(is_utc_stamp(g.paired_at@, secs as int));
    assert(bi.len() == 8 && g.id@ == hex_lower(bi));
    assert(bs.len() == 32 && g.secret@ == hex_lower(bs));
    g
}

/// The positions, in order, among the first `n` connected peers (by id) that
/// a clip goes to: every peer but the one it came from.
pub open spec fn recipients_of(ids: Seq<u64>, from: Option<u64>, n: int) -> Seq<usize>
    decreases n,
{
    if n <= 0 {
        Seq::empty()
    } else if from == Some(ids[n - 1]) {
        recipients_of(ids, from, n - 1)
    } else {
        recipients_of(ids, from, n - 1).push((n - 1) as usize)
    }
}

/// The peers a clip is passed on to: all connected peers, in order, except the
/// one it came from (none is excepted for a local change).
pub fn recipients(ids: &Vec<u64>, from: Option<u64>) -> (r: Vec<usize>)
    ensures
        r@ == recipients_of(ids@, from, ids@.len() as int),
{
    let mut r: Vec<usize> = Vec::new();
    let mut i: usize = 0;
    while i < ids.len()
        invariant
            i <= ids@.len(),
            r@ == recipients_of(ids@, from, i as int),
        decreases ids@.len() - i,
    {
        let skip = match from {
            Some(f) => ids[i] == f,
            None => false,
        };
        if !skip {
            r.push(i);
        }
        i = i + 1;
    }
    r
}

/// A clip reaches every connected peer other than its sender, and never its
/// sender.
pub proof fn lemma_recipients_are_the_others(ids: Seq<u64>, from: Option<u64>, n: int, j: int)
    requires
        0 <= j < n <= ids.len() <= usize::MAX,
    ensures
        recipients_of(ids, from, n).contains(j as usize) <==> from != Some(ids[j]),
    decreases n,
{
    let prev = recipients_of(ids, from, n - 1);
    let cur = prev.push((n - 1) as usize);
    assert(recipients_of(ids, from, n) == if from == Some(ids[n - 1]) {
        prev
    } else {
        cur
    });
    lemma_recipients_below(ids, from, n - 1);
    if j < n - 1 {
        lemma_recipients_are_the_others(ids, from, n - 1, j);
        if from != Some(ids[n - 1]) {
            if prev.contains(j as usize) {
                let k = choose|k: int| 0 <= k < prev.len() && #[trigger] prev[k] == j as usize;
                assert(cur[k] == j as usize);
            }
            if cur.contains(j as usize) {
                let k = choose|k: int| 0 <= k < cur.len() && #[trigger] cur[k] == j as usize;
                if k < prev.len() {
                    assert(prev[k] == j as usize);
                }
            }
        }
    } else {
        if from != Some(ids[n - 1]) {
            assert(cur[prev.len() as int] == (n - 1) as usize);
        } else {
            if prev.contains(j as usize) {
                let k = choose|k: int| 0 <= k < prev.len() && #[trigger] prev[k] == j as usize;
                assert(prev[k] < n - 1);
            }
        }
    }
}

proof fn lemma_recipients_below(ids: Seq<u64>, from: Option<u64>, n: int)
    requires
        0 <= n <= ids.len(),
    ensures
        forall|k: int|
            0 <= k < recipients_of(ids, from, n).len() ==> #[trigger] recipients_of(ids, from, n)[k]
                < n,
    decreases n,
{
    if n > 0 {
        lemma_recipients_below(ids, from, n - 1);
        let prev = recipients_of(ids, from, n - 1);
        if from != Some(ids[n - 1]) {
            assert forall|k: int| 0 <= k < prev.len() + 1 implies #[trigger] prev.push(
                (n - 1) as usize,
            )[k] < n by {
                if k < prev.len() {
                    assert(prev[k] < n - 1);
                }
            }
        }
    }
}

/// The texts joined with `sep` between consecutive ones.
pub open spec fn joined(parts: Seq<Seq<char>>, sep: Seq<char>) -> Seq<char>
    decreases parts.len(),
{
    if parts.len() == 0 {
        Seq::empty()
    } else if parts.len() == 1 {
        parts[0]
    } else {
        joined(parts.drop_last(), sep) + sep + parts.last()
    }
}

/// The label under which a connected guest is logged and listed.
pub fn peer_label(guest_name: &str, addr: &str) -> (s: String)
    ensures
        s@ == guest_name@ + " ("@ + addr@ + ")"@,
{
    let mut out = chars_of(guest_name);
    push_vec(&mut out, &chars_of(" ("));
    push_vec(&mut out, &chars_of(addr));
    push_vec(&mut out, &chars_of(")"));
    string_of(&out)
}

/// The state a host reports: connected while any guest is, the guests' labels
/// joined with ", ", and how many there are; stamped with the current time.
pub fn host_state(names: &Vec<String>) -> (st: State)
    ensures
        st.role@ == "host"@,
        st.connected == (names@.len() > 0),
        st.peer@ == joined(names@.map_values(|s: String| s@), ", "@),
        st.detail@ == decimal(names@.len()) + " guest(s) connected"@,
        exists|secs: u64| #[trigger] is_utc_stamp(st.updated@, secs as int),
{
    let ghost views = names@.map_values(|s: String| s@);
    let sep = chars_of(", ");
    let mut peer: Vec<char> = Vec::new();
    let mut i: usize = 0;
    while i < names.len()
        invariant
            i <= names@.len(),
            views == names@.map_values(|s: String| s@),
            sep@ == ", "@,
            peer@ == joined(views.take(i as int), ", "@),
        decreases names@.len() - i,
    {
        if i > 0 {
            push_vec(&mut peer, &sep);
        }
        push_vec(&mut peer, &chars_of(names[i].as_str()));
        i = i + 1;
        assert(views.take(i as int).drop_last() =~= views.take(i - 1));
        assert(views.take(i as int).last() == names@[i - 1]@);
        if i == 1 {
            assert(views.take(1)[0] == names@[0]@);
        }
    }
    assert(views.take(names@.len() as int) =~= views);
    let mut detail: Vec<char> = Vec::new();
    push_decimal(&mut detail, names.len() as u64);
    push_vec(&mut detail, &chars_of(" guest(s) connected"));
    let updated = now();
    let ghost secs = choose|secs: u64| #[trigger] is_utc_stamp(updated@, secs as int);
    let st = State {
        role: String::from_str("host"),
        connected: names.len() > 0,
        peer: string_of(&peer),
        detail: string_of(&detail),
        updated,
    };
    assert(is_utc_stamp(st.updated@, secs as int));
    st
}

} // verus!
