//! Finding the host from the guest. Order: explicit config, mDNS browse,
//! Parallels shared-network convention (gateway .1 => host .2). Here are the
//! name the host advertises, the choice among resolved addresses, and the
//! reading of the kernel's routing table.

use vstd::prelude::*;

use crate::clip::push_vec;
use crate::text::{chars_of, chars_equal, is_space, char_is_space, string_of};

verus! {

// ---------- advertising ----------

/// `s` with every trailing ".local" removed, as `str::trim_end_matches` does.
pub open spec fn strip_local(s: Seq<char>) -> Seq<char>
    decreases s.len(),
{
    if s.len() >= 6 && s.subrange(s.len() - 6, s.len() as int) == ".local"@ {
        strip_local(s.subrange(0, s.len() - 6))
    } else {
        s
    }
}

/// The mDNS host name for a machine name: the name without trailing ".local"
/// parts, followed by ".local.".
pub fn mdns_hostname(name: &str) -> (h: String)
    ensures
        h@ == strip_local(name@) + ".local."@,
{
    let suffix = chars_of(".local");
    let chars = chars_of(name);
    let mut end: usize = chars.len();
    assert(chars@.subrange(0, end as int) =~= chars@);
    loop
        invariant
            end <= chars@.len(),
            suffix@ == ".local"@,
            strip_local(name@) == strip_local(chars@.subrange(0, end as int)),
            chars@ == name@,
        ensures
            end <= chars@.len(),
            strip_local(name@) == chars@.subrange(0, end as int),
        decreases end,
    {
        let ghost prefix = chars@.subrange(0, end as int);
        if end < 6 {
            assert(strip_local(prefix) == prefix);
            break;
        }
        let tail = copy_range(&chars, end - 6, end);
        assert(prefix.subrange(prefix.len() - 6, prefix.len() as int) =~= tail@);
        if !chars_equal(&tail, &suffix) {
            assert(strip_local(prefix) == prefix);
            break;
        }
        assert(prefix.subrange(0, prefix.len() - 6) =~= chars@.subrange(0, end - 6));
        end = end - 6;
    }
    let mut out: Vec<char> = Vec::new();
    let mut j: usize = 0;
    while j < end
        invariant
            j <= end <= chars@.len(),
            out@ == chars@.subrange(0, j as int),
        decreases end - j,
    {
        out.push(chars[j]);
        j = j + 1;
        assert(out@ =~= chars@.subrange(0, j as int));
    }
    push_vec(&mut out, &chars_of(".local."));
    string_of(&out)
}

/// Which of the addresses of a resolved host to use, given whether each is
/// IPv4: the first IPv4 one, else the first one.
pub fn pick_address(is_v4: &Vec<bool>) -> (i: Option<usize>)
    ensures
        match i {
            Some(k) => k < is_v4@.len() && ((is_v4@[k as int] && (forall|j: int| 0 <= j < k ==> !is_v4@[j]))
                || (k == 0 && (forall|j: int| 0 <= j < is_v4@.len() ==> !is_v4@[j]))),
            None => is_v4@.len() == 0,
        },
{
    let mut k: usize = 0;
    while k < is_v4.len()
        invariant
            k <= is_v4@.len(),
            forall|j: int| 0 <= j < k ==> !is_v4@[j],
        decreases is_v4@.len() - k,
    {
        if is_v4[k] {
            return Some(k);
        }
        k = k + 1;
    }
    if is_v4.len() > 0 {
        Some(0)
    } else {
        None
    }
}

// ---------- the routing table ----------

/// The index of the first '\n' in `s`, or its length.
pub open spec fn newline_at(s: Seq<char>) -> int
    decreases s.len(),
{
    if s.len() == 0 {
        0
    } else if s[0] == '\n' {
        0
    } else {
        1 + newline_at(s.drop_first())
    }
}

/// The offset of the first line break lies within the text.
pub proof fn lemma_newline_at_bounds(s: Seq<char>)
    ensures
        0 <= newline_at(s) <= s.len(),
    decreases s.len(),
{
    if s.len() > 0 && s[0] != '\n' {
        lemma_newline_at_bounds(s.drop_first());
    }
}

/// A word lies within the text, and a text that starts with a non-space
/// character starts with a word of at least one character.
pub proof fn lemma_word_len_bounds(s: Seq<char>)
    ensures
        0 <= word_len(s) <= s.len(),
        s.len() > 0 && !is_space(s[0]) ==> word_len(s) >= 1,
    decreases s.len(),
{
    if s.len() > 0 && !is_space(s[0]) {
        lemma_word_len_bounds(s.drop_first());
    }
}

/// A line without its terminating carriage return.
pub open spec fn strip_cr(l: Seq<char>) -> Seq<char> {
    if l.len() > 0 && l.last() == '\r' {
        l.drop_last()
    } else {
        l
    }
}

/// The lines of `s` as `str::lines` gives them: split after each '\n', the
/// '\n' and a '\r' before it removed; a last line without '\n' is kept as is,
/// and there is no empty line after a final '\n'.
pub open spec fn lines_of(s: Seq<char>) -> Seq<Seq<char>>
    decreases s.len(),
{
    if s.len() == 0 {
        Seq::empty()
    } else {
        let i = newline_at(s);
        proof {
            lemma_newline_at_bounds(s);
        }
        if i < s.len() {
            seq![strip_cr(s.take(i))] + lines_of(s.skip(i + 1))
        } else {
            seq![s]
        }
    }
}

/// The length of the run of non-whitespace characters at the start of `s`.
pub open spec fn word_len(s: Seq<char>) -> int
    decreases s.len(),
{
    if s.len() == 0 || is_space(s[0]) {
        0
    } else {
        1 + word_len(s.drop_first())
    }
}

/// The words of `s` as `str::split_whitespace` gives them: the maximal runs of
/// non-whitespace characters.
pub open spec fn words_of(s: Seq<char>) -> Seq<Seq<char>>
    decreases s.len(),
{
    if s.len() == 0 {
        Seq::empty()
    } else if is_space(s[0]) {
        words_of(s.drop_first())
    } else {
        let w = word_len(s);
        proof {
            lemma_word_len_bounds(s);
        }
        seq![s.take(w)] + words_of(s.skip(w))
    }
}

/// The value of a hex digit of either case.
pub open spec fn hex_char_value(c: char) -> Option<nat> {
    if '0' <= c <= '9' {
        Some((c as nat - '0' as nat) as nat)
    } else if 'a' <= c <= 'f' {
        Some((c as nat - 'a' as nat + 10) as nat)
    } else if 'A' <= c <= 'F' {
        Some((c as nat - 'A' as nat + 10) as nat)
    } else {
        None
    }
}

/// The number that a string of hex digits denotes.
pub open spec fn hex_value(s: Seq<char>) -> nat
    decreases s.len(),
{
    if s.len() == 0 {
        0
    } else {
        hex_value(s.drop_last()) * 16 + match hex_char_value(s.last()) {
            Some(v) => v,
            None => 0,
        }
    }
}

/// Whether every character of `d` is a hex digit.
pub open spec fn all_hex(d: Seq<char>) -> bool {
    forall|i: int| 0 <= i < d.len() ==> (#[trigger] hex_char_value(d[i])) is Some
}

/// What `u32::from_str_radix(s, 16)` accepts: an optional '+', then at least
/// one hex digit and nothing else, with a value that fits in 32 bits.
pub open spec fn parse_hex_u32(s: Seq<char>) -> Option<u32> {
    let d = if s.len() > 0 && s[0] == '+' { s.drop_first() } else { s };
    if d.len() == 0 {
        None
    } else if !all_hex(d) {
        None
    } else if hex_value(d) > u32::MAX {
        None
    } else {
        Some(hex_value(d) as u32)
    }
}

/// The host address that a gateway address stands for: its first three bytes
/// in memory order (the table writes addresses little-endian) and 2.
pub open spec fn host_beside(gw: u32) -> Seq<u8> {
    seq![(gw % 256) as u8, ((gw / 256) % 256) as u8, ((gw / 65536) % 256) as u8, 2u8]
}

/// Reads routing-table lines: the first line whose destination (second column)
/// is `00000000` and that has a third column gives the gateway from that
/// column, as hex; a gateway that does not parse ends the search without a
/// result.
pub open spec fn gateway_in(lines: Seq<Seq<char>>) -> Option<Seq<u8>>
    decreases lines.len(),
{
    if lines.len() == 0 {
        None
    } else {
        let cols = words_of(lines[0]);
        if cols.len() > 2 && cols[1] == "00000000"@ {
            match parse_hex_u32(cols[2]) {
                Some(gw) => Some(host_beside(gw)),
                None => None,
            }
        } else {
            gateway_in(lines.drop_first())
        }
    }
}

/// The host address that the contents of `/proc/net/route` point at: the
/// default route's gateway with its last byte set to 2 (the header line is
/// skipped).
pub open spec fn gateway_host(route: Seq<char>) -> Option<Seq<u8>> {
    let ls = lines_of(route);
    if ls.len() == 0 {
        None
    } else {
        gateway_in(ls.drop_first())
    }
}

proof fn lemma_newline_at(s: Seq<char>, start: int, j: int)
    requires
        0 <= start <= j <= s.len(),
        forall|k: int| start <= k < j ==> s[k] != '\n',
        j == s.len() || s[j] == '\n',
    ensures
        newline_at(s.skip(start)) == j - start,
    decreases j - start,
{
    if start < j {
        lemma_newline_at(s, start + 1, j);
        assert(s.skip(start).drop_first() =~= s.skip(start + 1));
    }
}

proof fn lemma_word_len(s: Seq<char>, start: int, j: int)
    requires
        0 <= start <= j <= s.len(),
        forall|k: int| start <= k < j ==> !is_space(s[k]),
        j == s.len() || is_space(s[j]),
    ensures
        word_len(s.skip(start)) == j - start,
    decreases j - start,
{
    if start < j {
        lemma_word_len(s, start + 1, j);
        assert(s.skip(start).drop_first() =~= s.skip(start + 1));
    }
}

fn copy_range(s: &Vec<char>, from: usize, to: usize) -> (r: Vec<char>)
    requires
        from <= to <= s@.len(),
    ensures
        r@ == s@.subrange(from as int, to as int),
{
    let mut r: Vec<char> = Vec::new();
    let mut i: usize = from;
    while i < to
        invariant
            from <= i <= to <= s@.len(),
            r@ == s@.subrange(from as int, i as int),
        decreases to - i,
    {
        r.push(s[i]);
        i = i + 1;
        assert(r@ =~= s@.subrange(from as int, i as int));
    }
    r
}

/// The words of a line (see [`words_of`]).
pub fn split_words(s: &Vec<char>) -> (ws: Vec<Vec<char>>)
    ensures
        ws@.map_values(|w: Vec<char>| w@) == words_of(s@),
{
    let mut ws: Vec<Vec<char>> = Vec::new();
    let mut i: usize = 0;
    assert(s@.skip(0) =~= s@);
    while i < s.len()
        invariant
            i <= s@.len(),
            words_of(s@) == ws@.map_values(|w: Vec<char>| w@) + words_of(s@.skip(i as int)),
        decreases s@.len() - i,
    {
        let ghost rest = s@.skip(i as int);
        if char_is_space(s[i]) {
            assert(rest.drop_first() =~= s@.skip(i + 1));
            i = i + 1;
        } else {
            let mut j: usize = i;
            while j < s.len() && !char_is_space(s[j])
                invariant
                    i <= j <= s@.len(),
                    forall|k: int| i <= k < j ==> !is_space(s@[k]),
                decreases s@.len() - j,
            {
                j = j + 1;
            }
            proof {
                lemma_word_len(s@, i as int, j as int);
                assert(rest.take(j - i) =~= s@.subrange(i as int, j as int));
                assert(rest.skip(j - i) =~= s@.skip(j as int));
            }
            let w = copy_range(s, i, j);
            let ghost before = ws@.map_values(|w: Vec<char>| w@);
            ws.push(w);
            assert(ws@.map_values(|w: Vec<char>| w@) =~= before.push(s@.subrange(i as int, j as int)));
            i = j;
        }
    }
    assert(s@.skip(s@.len() as int) =~= Seq::<char>::empty());
    ws
}

fn digit_value(c: char) -> (v: Option<u64>)
    ensures
        match hex_char_value(c) {
            Some(d) => v == Some(d as u64),
            None => v is None,
        },
{
    if '0' <= c && c <= '9' {
        Some((c as u64) - ('0' as u64))
    } else if 'a' <= c && c <= 'f' {
        Some((c as u64) - ('a' as u64) + 10)
    } else if 'A' <= c && c <= 'F' {
        Some((c as u64) - ('A' as u64) + 10)
    } else {
        None
    }
}

/// Parses a hex number as `u32::from_str_radix(s, 16)` does (see
/// [`parse_hex_u32`]).
pub fn hex_u32(s: &Vec<char>) -> (r: Option<u32>)
    ensures
        r == parse_hex_u32(s@),
{
    let ghost d = if s@.len() > 0 && s@[0] == '+' { s@.drop_first() } else { s@ };
    let start: usize = if s.len() > 0 && s[0] == '+' { 1 } else { 0 };
    assert(d =~= s@.skip(start as int));
    if start >= s.len() {
        return None;
    }
    let cap: u64 = 0x1_0000_0000;
    let mut acc: u64 = 0;
    let mut i: usize = start;
    while i < s.len()
        invariant
            start <= i <= s@.len(),
            d == (if s@.len() > 0 && s@[0] == '+' { s@.drop_first() } else { s@ }),
            d =~= s@.skip(start as int),
            forall|k: int| 0 <= k < i - start ==> (#[trigger] hex_char_value(d[k])) is Some,
            cap == 0x1_0000_0000,
            acc <= cap,
            acc == (if hex_value(d.take(i - start)) < cap { hex_value(d.take(i - start)) } else { cap as nat }),
        decreases s@.len() - i,
    {
        let ghost pre = d.take(i - start);
        match digit_value(s[i]) {
            None => {
                assert(hex_char_value(d[i - start]) is None);
                assert(!all_hex(d));
                return None;
            },
            Some(v) => {
                let next = acc * 16 + v;
                acc = if next < cap { next } else { cap };
                i = i + 1;
                assert(d.take(i - start).drop_last() =~= pre);
                assert(d.take(i - start).last() == s@[i - 1]);
            },
        }
    }
    assert(d.take(d.len() as int) =~= d);
    if acc >= cap {
        None
    } else {
        Some(acc as u32)
    }
}

/// The host address that the contents of `/proc/net/route` point at (see
/// [`gateway_host`]).
pub fn gateway_from_route(route: &str) -> (ip: Option<[u8; 4]>)
    ensures
        match ip {
            Some(a) => gateway_host(route@) == Some(a@),
            None => gateway_host(route@) is None,
        },
{
    let text = chars_of(route);
    let n = text.len();
    // Skip the header line.
    let mut j: usize = 0;
    while j < n && text[j] != '\n'
        invariant
            j <= n == text@.len(),
            forall|k: int| 0 <= k < j ==> text@[k] != '\n',
        decreases n - j,
    {
        j = j + 1;
    }
    proof {
        lemma_newline_at(text@, 0, j as int);
        assert(text@.skip(0) =~= text@);
    }
    if j >= n {
        assert(lines_of(text@).len() <= 1);
        return None;
    }
    let mut start: usize = j + 1;
    assert(lines_of(text@).drop_first() =~= lines_of(text@.skip(start as int)));
    while start < n
        invariant
            start <= n == text@.len(),
            text@ == route@,
            gateway_host(route@) == gateway_in(lines_of(text@.skip(start as int))),
        decreases n - start,
    {
        let ghost rest = text@.skip(start as int);
        let mut e: usize = start;
        while e < n && text[e] != '\n'
            invariant
                start <= e <= n == text@.len(),
                forall|k: int| start <= k < e ==> text@[k] != '\n',
            decreases n - e,
        {
            e = e + 1;
        }
        proof {
            lemma_newline_at(text@, start as int, e as int);
            assert(rest.len() > 0);
            assert(newline_at(rest) == e - start);
        }
        let end_of_line: usize = if e < n && e > start && text[e - 1] == '\r' { e - 1 } else { e };
        let line = copy_range(&text, start, end_of_line);
        proof {
            if e < n {
                assert(rest.take(e - start) =~= text@.subrange(start as int, e as int));
                assert(line@ =~= strip_cr(rest.take(e - start)));
                assert(rest.skip(e - start + 1) =~= text@.skip(e + 1));
                assert(lines_of(rest) == seq![line@] + lines_of(text@.skip(e + 1)));
            } else {
                assert(line@ =~= rest);
                assert(lines_of(rest) == seq![line@]);
            }
        }
        let cols = split_words(&line);
        let ghost words = cols@.map_values(|w: Vec<char>| w@);
        assert(words == words_of(line@));
        assert(words.len() == cols@.len());
        if cols.len() > 2 && chars_equal(&cols[1], &chars_of("00000000")) {
            assert(words[1] == cols@[1]@);
            assert(words[2] == cols@[2]@);
            assert(gateway_in(lines_of(rest)) == match parse_hex_u32(words[2]) {
                Some(gw) => Some(host_beside(gw)),
                None => None::<Seq<u8>>,
            });
            match hex_u32(&cols[2]) {
                Some(gw) => {
                    let o: [u8; 4] = [(gw % 256) as u8, ((gw / 256) % 256) as u8, ((gw / 65536) % 256) as u8, 2u8];
                    assert(o@ =~= host_beside(gw));
                    return Some(o);
                },
                None => {
                    return None;
                },
            }
        }
        proof {
            if cols@.len() > 2 {
                assert(words[1] == cols@[1]@);
            }
            assert(!(words.len() > 2 && words[1] == "00000000"@));
            assert(gateway_in(lines_of(rest)) == gateway_in(lines_of(rest).drop_first()));
        }
        if e >= n {
            assert(lines_of(rest).drop_first() =~= Seq::<Seq<char>>::empty());
            return None;
        }
        assert(lines_of(rest).drop_first() =~= lines_of(text@.skip(e + 1)));
        start = e + 1;
    }
    assert(text@.skip(start as int) =~= Seq::<char>::empty());
    None
}

} // verus!
