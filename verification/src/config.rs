//! Configuration of both roles, the runtime state shown by `status`, and the
//! UTC clock used to stamp it.

use std::time::{SystemTime, UNIX_EPOCH};
use vstd::prelude::*;

use vstd::utf8::encode_utf8;

use crate::protocol::{challenge_mac, DEFAULT_PORT};
use crate::text::{decimal, decimal_padded, push_decimal, push_decimal_padded, str_equal, string_of};

verus! {

// ---------- guest ----------

/// The guest's configuration file.
#[derive(Debug, Clone)]
pub struct GuestConfig {
    /// Host address override. Empty = discover via mDNS, then gateway .2.
    pub host: String,
    pub port: u16,
    /// Assigned by the host during pairing.
    pub id: String,
    pub secret: String,
    /// Host name recorded at pairing time, for display only.
    pub host_name: String,
}

/// The port a configuration gets when its file does not name one.
pub fn default_port() -> (p: u16)
    ensures
        p == DEFAULT_PORT,
{
    DEFAULT_PORT
}

impl Default for GuestConfig {
    fn default() -> (c: Self)
        ensures
            c.host@.len() == 0,
            c.port == 0,
            c.id@.len() == 0,
            c.secret@.len() == 0,
            c.host_name@.len() == 0,
    {
        GuestConfig {
            host: String::new(),
            port: 0,
            id: String::new(),
            secret: String::new(),
            host_name: String::new(),
        }
    }
}

impl GuestConfig {
    /// The configuration of a guest that has no file yet: everything empty and
    /// the default port.
    pub fn unconfigured() -> (c: Self)
        ensures
            c.host@.len() == 0,
            c.port == DEFAULT_PORT,
            c.id@.len() == 0,
            c.secret@.len() == 0,
            c.host_name@.len() == 0,
    {
        GuestConfig { port: default_port(), ..Default::default() }
    }

    /// Whether this guest holds a pairing: an id and a secret.
    pub open spec fn is_paired(&self) -> bool {
        self.id@.len() > 0 && self.secret@.len() > 0
    }

    /// Whether this guest holds a pairing: an id and a secret.
    pub fn paired(&self) -> (b: bool)
        ensures
            b == self.is_paired(),
    {
        !self.id.as_str().is_empty() && !self.secret.as_str().is_empty()
    }

    /// Drops the id and secret, so that the next connection pairs again.
    pub fn clear_pairing(&mut self)
        ensures
            final(self).id@.len() == 0,
            final(self).secret@.len() == 0,
            final(self).host == old(self).host,
            final(self).port == old(self).port,
            final(self).host_name == old(self).host_name,
    {
        self.id = String::new();
        self.secret = String::new();
    }

    /// Drops the pairing and the name of the host it was made with.
    pub fn forget_host(&mut self)
        ensures
            final(self).id@.len() == 0,
            final(self).secret@.len() == 0,
            final(self).host_name@.len() == 0,
            final(self).host == old(self).host,
            final(self).port == old(self).port,
    {
        self.clear_pairing();
        self.host_name = String::new();
    }
}

// ---------- host ----------

/// A guest that the host has paired with.
#[derive(Debug, Clone)]
pub struct PairedGuest {
    pub id: String,
    pub name: String,
    pub secret: String,
    pub paired_at: String,
}

/// The host's configuration file.
#[derive(Debug, Clone)]
pub struct HostConfig {
    pub bind: String,
    pub port: u16,
    /// Accept pairing requests without asking. Only sensible when the port is
    /// reachable solely from your own VMs.
    pub auto_accept: bool,
    pub guests: Vec<PairedGuest>,
}

/// The address the host listens on when its file does not name one.
pub fn default_bind() -> (b: String)
    ensures
        b@ == "0.0.0.0"@,
{
    String::from_str("0.0.0.0")
}

impl Default for HostConfig {
    fn default() -> (c: Self)
        ensures
            c.bind@ == "0.0.0.0"@,
            c.port == DEFAULT_PORT,
            !c.auto_accept,
            c.guests@.len() == 0,
    {
        HostConfig { bind: default_bind(), port: default_port(), auto_accept: false, guests: Vec::new() }
    }
}

/// The guests of `gs` whose name is not `name`, in their order.
pub open spec fn without_name(gs: Seq<PairedGuest>, name: Seq<char>) -> Seq<PairedGuest>
    decreases gs.len(),
{
    if gs.len() == 0 {
        gs
    } else if gs[0].name@ == name {
        without_name(gs.drop_first(), name)
    } else {
        seq![gs[0]] + without_name(gs.drop_first(), name)
    }
}

/// The guest list after pairing with `g`: any earlier pairing under the same
/// name is replaced, and `g` comes last.
pub open spec fn after_pairing(gs: Seq<PairedGuest>, g: PairedGuest) -> Seq<PairedGuest> {
    without_name(gs, g.name@).push(g)
}

/// Whether the host accepts the answer `mac` to the challenge `nonce` from the
/// guest that calls itself `id`: some paired guest has that id and its secret
/// gives that answer.
pub open spec fn accepts(gs: Seq<PairedGuest>, id: Seq<char>, mac: Seq<char>, nonce: Seq<char>) -> bool {
    exists|i: int|
        0 <= i < gs.len() && (#[trigger] gs[i]).id@ == id && challenge_mac(
            encode_utf8(gs[i].secret@),
            encode_utf8(nonce),
        ) == mac
}

impl HostConfig {
    /// Records a new pairing: drops any guest paired under the same name, then
    /// appends `guest`.
    pub fn record_pairing(&mut self, guest: PairedGuest)
        ensures
            final(self).guests@ == after_pairing(old(self).guests@, guest),
            final(self).bind == old(self).bind,
            final(self).port == old(self).port,
            final(self).auto_accept == old(self).auto_accept,
    {
        let mut rest: Vec<PairedGuest> = Vec::new();
        std::mem::swap(&mut rest, &mut self.guests);
        let ghost orig = rest@;
        let mut kept: Vec<PairedGuest> = Vec::new();
        while rest.len() > 0
            invariant
                without_name(orig, guest.name@) == kept@ + without_name(rest@, guest.name@),
            decreases rest@.len(),
        {
            let ghost before = rest@;
            let g = rest.remove(0);
            assert(before.drop_first() == rest@);
            if !str_equal(g.name.as_str(), guest.name.as_str()) {
                kept.push(g);
            }
        }
        assert(kept@ =~= without_name(orig, guest.name@));
        kept.push(guest);
        self.guests = kept;
    }
}

/// After a pairing, the new guest is the only one under its name.
pub proof fn lemma_pairing_replaces_same_name(gs: Seq<PairedGuest>, g: PairedGuest)
    ensures
        after_pairing(gs, g).last() == g,
        forall|i: int|
            0 <= i < after_pairing(gs, g).len() - 1 ==> (#[trigger] after_pairing(gs, g)[i]).name@
                != g.name@,
{
    lemma_without_name_excludes(gs, g.name@);
}

proof fn lemma_without_name_excludes(gs: Seq<PairedGuest>, name: Seq<char>)
    ensures
        forall|i: int| 0 <= i < without_name(gs, name).len() ==> (#[trigger] without_name(gs, name)[i]).name@ != name,
    decreases gs.len(),
{
    if gs.len() > 0 {
        lemma_without_name_excludes(gs.drop_first(), name);
        let w = without_name(gs.drop_first(), name);
        if gs[0].name@ != name {
            assert forall|i: int| 0 <= i < (seq![gs[0]] + w).len() implies (#[trigger] (seq![gs[0]]
                + w)[i]).name@ != name by {
                if i > 0 {
                    assert((seq![gs[0]] + w)[i] == w[i - 1]);
                }
            }
        }
    }
}

proof fn lemma_without_name_keeps(gs: Seq<PairedGuest>, name: Seq<char>, j: int)
    requires
        0 <= j < gs.len(),
        gs[j].name@ != name,
    ensures
        without_name(gs, name).contains(gs[j]),
    decreases gs.len(),
{
    if j == 0 {
        assert(without_name(gs, name)[0] == gs[0]);
    } else {
        lemma_without_name_keeps(gs.drop_first(), name, j - 1);
        let w = without_name(gs.drop_first(), name);
        let k = choose|k: int| 0 <= k < w.len() && w[k] == gs[j];
        if gs[0].name@ != name {
            assert((seq![gs[0]] + w)[k + 1] == gs[j]);
        }
    }
}

/// A pairing keeps every guest paired under another name.
pub proof fn lemma_pairing_keeps_others(gs: Seq<PairedGuest>, g: PairedGuest, j: int)
    requires
        0 <= j < gs.len(),
        gs[j].name@ != g.name@,
    ensures
        after_pairing(gs, g).contains(gs[j]),
{
    lemma_without_name_keeps(gs, g.name@, j);
    let w = without_name(gs, g.name@);
    let k = choose|k: int| 0 <= k < w.len() && w[k] == gs[j];
    assert(after_pairing(gs, g)[k] == gs[j]);
}

/// Right after pairing, the host accepts the new guest's answer to any
/// challenge: the id and secret it handed out authenticate.
pub proof fn lemma_paired_guest_is_accepted(gs: Seq<PairedGuest>, g: PairedGuest, nonce: Seq<char>)
    ensures
        accepts(
            after_pairing(gs, g),
            g.id@,
            challenge_mac(encode_utf8(g.secret@), encode_utf8(nonce)),
            nonce,
        ),
{
    let s = after_pairing(gs, g);
    assert(s[s.len() - 1] == g);
}

/// Every paired guest is accepted, wherever it stands in the list: its id with
/// the answer its secret gives to the challenge.
pub proof fn lemma_every_paired_guest_is_accepted(gs: Seq<PairedGuest>, i: int, nonce: Seq<char>)
    requires
        0 <= i < gs.len(),
    ensures
        accepts(gs, gs[i].id@, challenge_mac(encode_utf8(gs[i].secret@), encode_utf8(nonce)), nonce),
{
    assert(gs[i].id@ == gs[i].id@);
}

/// Only paired guests are accepted: an accepted answer comes from a paired
/// guest with that id whose secret gives it.
pub proof fn lemma_only_paired_guests_are_accepted(
    gs: Seq<PairedGuest>,
    id: Seq<char>,
    mac: Seq<char>,
    nonce: Seq<char>,
)
    requires
        accepts(gs, id, mac, nonce),
    ensures
        exists|i: int|
            0 <= i < gs.len() && #[trigger] gs[i].id@ == id && challenge_mac(
                encode_utf8(gs[i].secret@),
                encode_utf8(nonce),
            ) == mac,
{
}

/// A guest stays accepted after another guest pairs under another name.
pub proof fn lemma_pairing_keeps_others_accepted(gs: Seq<PairedGuest>, g: PairedGuest, j: int, nonce: Seq<char>)
    requires
        0 <= j < gs.len(),
        gs[j].name@ != g.name@,
    ensures
        accepts(
            after_pairing(gs, g),
            gs[j].id@,
            challenge_mac(encode_utf8(gs[j].secret@), encode_utf8(nonce)),
            nonce,
        ),
{
    lemma_pairing_keeps_others(gs, g, j);
    let s = after_pairing(gs, g);
    let k = choose|k: int| 0 <= k < s.len() && s[k] == gs[j];
    lemma_every_paired_guest_is_accepted(s, k, nonce);
}

// ---------- runtime state (for `status`) ----------

/// What a daemon reports about its link, for `status`.
#[derive(Debug, Clone)]
pub struct State {
    pub role: String,
    pub connected: bool,
    pub peer: String,
    pub detail: String,
    pub updated: String,
}

// ---------- the proleptic Gregorian calendar ----------

/// `i64::div_euclid`: the quotient of Euclidean division (std documents that
/// `x == q * rhs + r` with `0 <= r < |rhs|`, which is how `/` reads in specs).
pub assume_specification[ i64::div_euclid ](x: i64, rhs: i64) -> (q: i64)
    requires
        rhs != 0,
        !(x == i64::MIN && rhs == -1),
    ensures
        q as int == x as int / rhs as int,
;

/// `i64::rem_euclid`: the non-negative remainder of Euclidean division.
pub assume_specification[ i64::rem_euclid ](x: i64, rhs: i64) -> (r: i64)
    requires
        rhs != 0,
        !(x == i64::MIN && rhs == -1),
    ensures
        r as int == x as int % rhs as int,
;

/// Whether `y` is a leap year of the Gregorian calendar.
pub open spec fn is_leap_year(y: int) -> bool {
    y % 4 == 0 && (y % 100 != 0 || y % 400 == 0)
}

/// The number of days of month `m` (1 = January) of year `y`.
pub open spec fn days_in_month(y: int, m: int) -> int {
    if m == 2 {
        if is_leap_year(y) { 29 } else { 28 }
    } else if m == 4 || m == 6 || m == 9 || m == 11 {
        30
    } else {
        31
    }
}

/// The days of a common year before the first of month `m`.
pub open spec fn common_days_before(m: int) -> int {
    if m == 1 { 0 }
    else if m == 2 { 31 }
    else if m == 3 { 59 }
    else if m == 4 { 90 }
    else if m == 5 { 120 }
    else if m == 6 { 151 }
    else if m == 7 { 181 }
    else if m == 8 { 212 }
    else if m == 9 { 243 }
    else if m == 10 { 273 }
    else if m == 11 { 304 }
    else { 334 }
}

/// The number of leap years among the years `1..=y` (counted with floor
/// division, so the count extends to years before 1).
pub open spec fn leap_years_through(y: int) -> int {
    y / 4 - y / 100 + y / 400
}

/// The number of days from 1970-01-01 to the date `y-m-d`, negative before it.
pub open spec fn days_from_civil(y: int, m: int, d: int) -> int {
    365 * (y - 1970) + (leap_years_through(y - 1) - leap_years_through(1969))
        + common_days_before(m) + (if m > 2 && is_leap_year(y) { 1int } else { 0int }) + d - 1
}

/// Whether `y-m-d` names a day of the calendar.
pub open spec fn is_valid_date(y: int, m: int, d: int) -> bool {
    1 <= m <= 12 && 1 <= d <= days_in_month(y, m)
}

/// The first day, counted from March 1, of the month `mp` months after March.
pub open spec fn march_month_start(mp: u64) -> u64 {
    if mp == 0 { 0 }
    else if mp == 1 { 31 }
    else if mp == 2 { 61 }
    else if mp == 3 { 92 }
    else if mp == 4 { 122 }
    else if mp == 5 { 153 }
    else if mp == 6 { 184 }
    else if mp == 7 { 214 }
    else if mp == 8 { 245 }
    else if mp == 9 { 275 }
    else if mp == 10 { 306 }
    else { 337 }
}

/// Within a 400-year era that starts on March 1, the day `doe` falls in the
/// year `yoe` given by the closed formula, and that year's length bounds it.
proof fn lemma_year_of_era(doe: u64)
    by (bit_vector)
    requires
        doe <= 146096,
    ensures
        ({
            let yoe = (doe - doe / 1460 + doe / 36524 - doe / 146096) / 365;
            let start = 365 * yoe + yoe / 4 - yoe / 100;
            let leap = (yoe + 1) % 4 == 0 && ((yoe + 1) % 100 != 0 || (yoe + 1) % 400 == 0);
            &&& yoe <= 399
            &&& start <= doe
            &&& (leap ==> doe - start <= 365)
            &&& (!leap ==> doe - start <= 364)
        }),
{
}

/// Within a year that starts on March 1, the day `doy` falls in the month
/// `mp` (0 = March) given by the closed formula, at the given day of it.
proof fn lemma_month_of_year(doy: u64)
    by (bit_vector)
    requires
        doy <= 365,
    ensures
        ({
            let mp = (5 * doy + 2) / 153;
            let ms = (153 * mp + 2) / 5;
            &&& mp <= 11
            &&& ms == march_month_start(mp as u64)
            &&& ms <= doy
            &&& (mp == 0 || mp == 2 || mp == 4 || mp == 5 || mp == 7 || mp == 9 || mp == 10)
                ==> doy - ms <= 30
            &&& (mp == 1 || mp == 3 || mp == 6 || mp == 8) ==> doy - ms <= 29
            &&& (mp == 11 && doy <= 364) ==> doy - ms <= 27
            &&& mp == 11 ==> doy - ms <= 28
        }),
{
}

/// Adding a multiple of `c` shifts the quotient and keeps the remainder.
proof fn lemma_div_shift(k: int, q: int, c: int)
    requires
        c > 0,
    ensures
        (c * q + k) / c == q + k / c,
        (c * q + k) % c == k % c,
{
    vstd::arithmetic::div_mod::lemma_fundamental_div_mod(k, c);
    let kq = k / c;
    let kr = k % c;
    assert((q + kq) * c + kr == c * q + k) by (nonlinear_arith)
        requires
            k == c * kq + kr,
    ;
    vstd::arithmetic::div_mod::lemma_fundamental_div_mod_converse(c * q + k, c, q + kq, kr);
}

/// The leap years counted up to a year of a 400-year era are those of the
/// whole eras before it plus those up to its year of era.
proof fn lemma_leaps_in_era(era: int, k: int)
    ensures
        leap_years_through(400 * era + k) == 97 * era + leap_years_through(k),
        is_leap_year(400 * era + k) == is_leap_year(k),
{
    lemma_div_shift(k, 100 * era, 4);
    lemma_div_shift(k, 4 * era, 100);
    lemma_div_shift(k, era, 400);
    assert(4 * (100 * era) == 400 * era);
    assert(100 * (4 * era) == 400 * era);
}

/// The day count of a date given by era, year of era, month from March and
/// day of month matches the calendar's count.
proof fn lemma_days_from_era(era: int, yoe: int, mp: int, d: int)
    requires
        0 <= yoe <= 399,
        0 <= mp <= 11,
    ensures
        ({
            let m = if mp < 10 { mp + 3 } else { mp - 9 };
            let y = 400 * era + yoe + if m <= 2 { 1int } else { 0int };
            days_from_civil(y, m, d) == era * 146097 + 365 * yoe + yoe / 4 - yoe / 100
                + march_month_start(mp as u64) + d - 1 - 719468
        }),
{
    let m = if mp < 10 { mp + 3 } else { mp - 9 };
    lemma_leaps_in_era(era, yoe);
    lemma_leaps_in_era(era, yoe - 1);
    assert(yoe / 400 == 0);
    assert((yoe - 1) / 4 - (yoe - 1) / 100 + (yoe - 1) / 400 + (if is_leap_year(yoe) { 1int } else { 0int })
        == yoe / 4 - yoe / 100 + yoe / 400);
    if m <= 2 {
        let y = 400 * era + yoe + 1;
        assert(days_from_civil(y, m, d) == 365 * (y - 1970) + leap_years_through(400 * era + yoe)
            - leap_years_through(1969) + common_days_before(m) + d - 1);
    } else {
        let y = 400 * era + yoe;
        assert(days_from_civil(y, m, d) == 365 * (y - 1970) + leap_years_through(400 * era + (yoe - 1))
            - leap_years_through(1969) + common_days_before(m) + (if is_leap_year(y) { 1int } else { 0int }) + d - 1);
    }
}

/// The year of a 400-year era (counted from March 1 of its first year) in
/// which its day `doe` falls, by the closed formula.
pub open spec fn year_of_era(doe: int) -> int {
    (doe - doe / 1460 + doe / 36_524 - doe / 146_096) / 365
}

/// The first day, within its era, of the year of era `yoe`.
pub open spec fn year_start(yoe: int) -> int {
    365 * yoe + yoe / 4 - yoe / 100
}

/// The month, counted from March, in which day `doy` of a March-based year
/// falls, by the closed formula.
pub open spec fn month_of_year(doy: int) -> int {
    (5 * doy + 2) / 153
}

/// The first day of the month `mp` months after March, by the closed formula.
pub open spec fn month_start(mp: int) -> int {
    (153 * mp + 2) / 5
}

/// The date that the closed formula gives for a day count, spelled out over
/// integers.
pub open spec fn civil_formula(days: int) -> (int, int, int) {
    let z = days + 719_468;
    let era = z / 146_097;
    let doe = z % 146_097;
    let yoe = year_of_era(doe);
    let doy = doe - year_start(yoe);
    let mp = month_of_year(doy);
    let d = doy - month_start(mp) + 1;
    let m = if mp < 10 { mp + 3 } else { mp - 9 };
    let y = yoe + era * 400;
    (if m <= 2 { y + 1 } else { y }, m, d)
}

proof fn lemma_year_facts(doe: int)
    requires
        0 <= doe <= 146096,
    ensures
        0 <= year_of_era(doe) <= 399,
        year_start(year_of_era(doe)) <= doe,
        doe - year_start(year_of_era(doe)) <= (if is_leap_year(year_of_era(doe) + 1) { 365int } else { 364int }),
{
    lemma_year_of_era(doe as u64);
}

proof fn lemma_month_facts(doy: int)
    requires
        0 <= doy <= 365,
    ensures
        0 <= month_of_year(doy) <= 11,
        month_start(month_of_year(doy)) == march_month_start(month_of_year(doy) as u64),
        month_start(month_of_year(doy)) <= doy,
        ({
            let mp = month_of_year(doy);
            let m = if mp < 10 { mp + 3 } else { mp - 9 };
            let dd = doy - month_start(mp);
            &&& (m != 2 ==> dd + 1 <= days_in_month(0, m))
            &&& (m == 2 && doy <= 364 ==> dd + 1 <= 28)
            &&& (m == 2 ==> dd + 1 <= 29)
        }),
{
    lemma_month_of_year(doy as u64);
}

/// The closed formula yields a valid date whose day count is the input.
proof fn lemma_civil_formula(days: int)
    ensures
        is_valid_date(civil_formula(days).0, civil_formula(days).1, civil_formula(days).2),
        days_from_civil(civil_formula(days).0, civil_formula(days).1, civil_formula(days).2)
            == days,
        days >= -719_468 ==> civil_formula(days).0 >= 0,
{
    let z = days + 719_468;
    let era = z / 146_097;
    let doe = z % 146_097;
    vstd::arithmetic::div_mod::lemma_fundamental_div_mod(z, 146_097);
    lemma_year_facts(doe);
    let yoe = year_of_era(doe);
    let doy = doe - year_start(yoe);
    lemma_month_facts(doy);
    let mp = month_of_year(doy);
    let d = doy - month_start(mp) + 1;
    lemma_days_from_era(era, yoe, mp, d);
    let m = if mp < 10 { mp + 3 } else { mp - 9 };
    let y = 400 * era + yoe + if m <= 2 { 1int } else { 0int };
    lemma_leaps_in_era(era, yoe + 1);
    assert(m == 2 ==> y == 400 * era + (yoe + 1));
    assert(civil_formula(days) == (y, m, d));
    assert(days >= -719_468 ==> civil_formula(days).0 >= 0);
}

/// The calendar date `days` days after 1970-01-01 (before it if negative), as
/// (year, month, day).
pub fn civil_from_days(days: i64) -> (date: (i64, u32, u32))
    requires
        days <= i64::MAX - 719_468,
    ensures
        is_valid_date(date.0 as int, date.1 as int, date.2 as int),
        days_from_civil(date.0 as int, date.1 as int, date.2 as int) == days,
        days >= -719_468 ==> date.0 >= 0,
{
    proof {
        lemma_civil_formula(days as int);
    }
    let z = days + 719_468;
    let era = z.div_euclid(146_097);
    let doe = z.rem_euclid(146_097);
    proof {
        vstd::arithmetic::div_mod::lemma_fundamental_div_mod(z as int, 146_097);
        assert(-64_000_000_000_000 <= era <= 64_000_000_000_000);
        lemma_year_facts(doe as int);
    }
    let yoe = (doe - doe / 1460 + doe / 36_524 - doe / 146_096) / 365;
    assert(yoe == year_of_era(doe as int));
    let y = yoe + era * 400;
    let doy = doe - (365 * yoe + yoe / 4 - yoe / 100);
    proof {
        lemma_month_facts(doy as int);
    }
    let mp = (5 * doy + 2) / 153;
    assert(mp == month_of_year(doy as int));
    let d = (doy - (153 * mp + 2) / 5 + 1) as u32;
    let m = if mp < 10 { mp + 3 } else { mp - 9 } as u32;
    (if m <= 2 { y + 1 } else { y }, m, d)
}


/// Consecutive leap-year counts differ by whether the later year is a leap
/// year.
proof fn lemma_leap_step(y: int)
    ensures
        leap_years_through(y) - leap_years_through(y - 1) == (if is_leap_year(y) { 1int } else { 0int }),
{
    vstd::arithmetic::div_mod::lemma_fundamental_div_mod(y, 4);
    vstd::arithmetic::div_mod::lemma_fundamental_div_mod(y - 1, 4);
    vstd::arithmetic::div_mod::lemma_fundamental_div_mod(y, 100);
    vstd::arithmetic::div_mod::lemma_fundamental_div_mod(y - 1, 100);
    vstd::arithmetic::div_mod::lemma_fundamental_div_mod(y, 400);
    vstd::arithmetic::div_mod::lemma_fundamental_div_mod(y - 1, 400);
}

/// The first day of year `y + 1` comes `365` or `366` days after that of `y`.
proof fn lemma_year_length(y: int)
    ensures
        days_from_civil(y + 1, 1, 1) == days_from_civil(y, 1, 1) + 365 + (if is_leap_year(y) { 1int } else { 0int }),
{
    lemma_leap_step(y);
}

/// New Year's days come in increasing order.
proof fn lemma_new_year_monotone(a: int, b: int)
    requires
        a <= b,
    ensures
        days_from_civil(a, 1, 1) <= days_from_civil(b, 1, 1),
    decreases b - a,
{
    if a < b {
        lemma_new_year_monotone(a, b - 1);
        lemma_year_length(b - 1);
    }
}

/// A valid date falls within its year: on or after its New Year's day and
/// before the next one.
proof fn lemma_date_within_year(y: int, m: int, d: int)
    requires
        is_valid_date(y, m, d),
    ensures
        days_from_civil(y, 1, 1) <= days_from_civil(y, m, d) < days_from_civil(y + 1, 1, 1),
{
    lemma_year_length(y);
}

/// Distinct valid dates have distinct day counts: a day count names exactly
/// one calendar date, so the date that `civil_from_days` returns is the only
/// one its contract admits.
pub proof fn lemma_civil_date_unique(y1: int, m1: int, d1: int, y2: int, m2: int, d2: int)
    requires
        is_valid_date(y1, m1, d1),
        is_valid_date(y2, m2, d2),
        days_from_civil(y1, m1, d1) == days_from_civil(y2, m2, d2),
    ensures
        y1 == y2 && m1 == m2 && d1 == d2,
{
    lemma_date_within_year(y1, m1, d1);
    lemma_date_within_year(y2, m2, d2);
    if y1 < y2 {
        lemma_new_year_monotone(y1 + 1, y2);
    } else if y2 < y1 {
        lemma_new_year_monotone(y2 + 1, y1);
    }
    assert(y1 == y2);
}

// ---------- UTC timestamps ----------

/// `YYYY-MM-DDTHH:MM:SSZ` for the date `y-m-d` and the time of day of `secs`
/// seconds after midnight of 1970-01-01.
pub open spec fn stamp_text(y: int, m: int, d: int, secs: int) -> Seq<char> {
    decimal_padded(y as nat, 4) + seq!['-'] + decimal_padded(m as nat, 2) + seq!['-']
        + decimal_padded(d as nat, 2) + seq!['T'] + decimal_padded(((secs / 3600) % 24) as nat, 2)
        + seq![':'] + decimal_padded(((secs / 60) % 60) as nat, 2) + seq![':']
        + decimal_padded((secs % 60) as nat, 2) + seq!['Z']
}

/// Whether `text` is the UTC timestamp of the instant `secs` seconds after the
/// Unix epoch: the calendar date of that day and the time of day, in the
/// `YYYY-MM-DDTHH:MM:SSZ` form.
#[verifier::opaque]
pub open spec fn is_utc_stamp(text: Seq<char>, secs: int) -> bool {
    exists|y: int, m: int, d: int|
        #![trigger days_from_civil(y, m, d)]
        is_valid_date(y, m, d) && days_from_civil(y, m, d) == secs / 86400 && y >= 0
            && text == stamp_text(y, m, d, secs)
}

/// The UTC timestamp of `secs` seconds after the Unix epoch.
pub fn utc_stamp(secs: u64) -> (text: String)
    ensures
        is_utc_stamp(text@, secs as int),
{
    let days = secs / 86400;
    let h = (secs / 3600) % 24;
    let mi = (secs / 60) % 60;
    let s = secs % 60;
    let (y, mo, d) = civil_from_days(days as i64);
    let mut out: Vec<char> = Vec::new();
    push_decimal_padded(&mut out, y as u64, 4);
    out.push('-');
    push_decimal_padded(&mut out, mo as u64, 2);
    out.push('-');
    push_decimal_padded(&mut out, d as u64, 2);
    out.push('T');
    push_decimal_padded(&mut out, h, 2);
    out.push(':');
    push_decimal_padded(&mut out, mi, 2);
    out.push(':');
    push_decimal_padded(&mut out, s, 2);
    out.push('Z');
    assert(out@ =~= stamp_text(y as int, mo as int, d as int, secs as int));
    assert(days_from_civil(y as int, mo as int, d as int) == secs / 86400);
    let text = string_of(&out);
    assert(is_utc_stamp(text@, secs as int)) by {
        reveal(is_utc_stamp);
    }
    text
}

/// Reads the system clock: whole seconds since the Unix epoch, or `None` when
/// the clock is set before it (`SystemTime::now` and `duration_since`). The
/// value depends on the clock, so nothing is claimed of it.
#[verifier::external_body]
fn seconds_since_epoch() -> Option<u64> {
    SystemTime::now().duration_since(UNIX_EPOCH).ok().map(|d| d.as_secs())
}

/// The stamp of the epoch itself.
pub open spec fn epoch_text() -> Seq<char> {
    "1970-01-01T00:00:00Z"@
}

/// The stamp of the epoch is `1970-01-01T00:00:00Z`.
pub proof fn lemma_epoch_stamp(text: Seq<char>)
    requires
        is_utc_stamp(text, 0),
    ensures
        text == epoch_text(),
{
    reveal(is_utc_stamp);
    let (y, m, d) = choose|y: int, m: int, d: int|
        #![trigger days_from_civil(y, m, d)]
        is_valid_date(y, m, d) && days_from_civil(y, m, d) == 0int / 86400 && y >= 0 && text
            == stamp_text(y, m, d, 0);
    assert(days_from_civil(1970, 1, 1) == 0);
    assert(is_valid_date(1970, 1, 1));
    lemma_civil_date_unique(y, m, d, 1970, 1, 1);
    reveal_with_fuel(decimal, 5);
    reveal_strlit("1970-01-01T00:00:00Z");
    assert(decimal_padded(1970, 4) =~= seq!['1', '9', '7', '0']);
    assert(decimal_padded(1, 2) =~= seq!['0', '1']);
    assert(decimal_padded(0, 2) =~= seq!['0', '0']);
    assert(text =~= epoch_text());
}

/// The stamp for a reading of the clock: the UTC timestamp of the seconds
/// since the epoch, or the epoch itself when the clock is set before it.
pub fn stamp_of_clock(reading: Option<u64>) -> (text: String)
    ensures
        match reading {
            Some(secs) => is_utc_stamp(text@, secs as int),
            None => text@ == epoch_text() && is_utc_stamp(text@, 0),
        },
{
    let secs = match reading {
        Some(s) => s,
        None => 0,
    };
    let text = utc_stamp(secs);
    proof {
        if reading is None {
            lemma_epoch_stamp(text@);
        }
    }
    text
}

/// The current UTC time as `YYYY-MM-DDTHH:MM:SSZ` (the epoch when the clock is
/// set before it; see [`stamp_of_clock`]).
pub fn now() -> (text: String)
    ensures
        exists|secs: u64| #[trigger] is_utc_stamp(text@, secs as int),
{
    let reading = seconds_since_epoch();
    let text = stamp_of_clock(reading);
    proof {
        let secs: u64 = match reading {
            Some(s) => s,
            None => 0,
        };
        assert(is_utc_stamp(text@, secs as int));
    }
    text
}

} // verus!
