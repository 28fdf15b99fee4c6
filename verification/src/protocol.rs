//! Wire protocol: newline-delimited JSON frames over one TCP connection.
//!
//! Handshake (the host is the server):
//!   host  -> guest : Challenge { nonce }
//!   guest -> host  : Auth { id, mac = HMAC-SHA256(secret, nonce) }   (already paired)
//!                or  Pair { name }                                    (first contact)
//!   host  -> guest : PairCode { code }  -> user approves on the host -> Paired { id, secret }
//!   host  -> guest : Ok
//! Then either side sends Clip frames whenever its clipboard changes.

use hmac::digest::KeyInit;
use hmac::{Hmac, Mac};
use sha2::Sha256;
use vstd::prelude::*;
use vstd::utf8::{encode_utf8, is_ascii_chars, is_ascii_chars_encode_utf8};
use vstd::string::StringSliceAdditionalSpecFns;

use crate::clip::{append_bytes, push_vec};
use crate::text::{chars_of, decimal, decimal_padded, digit_char, pad_zeros, push_decimal, push_decimal_padded, string_of};

verus! {

/// The protocol version this build speaks.
pub const VERSION: u32 = 2;

/// The TCP port the host listens on by default.
pub const DEFAULT_PORT: u16 = 52017;

/// The longest frame line accepted, in bytes.
pub const MAX_FRAME: usize = 24 * 1024 * 1024;

/// The mDNS service type the host advertises.
pub const SERVICE_TYPE: &'static str = "_clipbridge._tcp.local.";

/// One message of the protocol.
#[derive(Debug, Clone)]
pub enum Frame {
    Challenge { v: u32, name: String, nonce: String },
    Auth { id: String, name: String, mac: String },
    Pair { name: String },
    PairCode { code: String },
    Paired { id: String, secret: String },
    PairDenied { reason: String },
    Okay { name: String },
    Error { error: String },
    Clip { mime: String, b64: String },
    Ping,
    Pong,
}

// ---------- hex ----------

/// The value of an ASCII hex digit of either case ('0'-'9' are 48-57,
/// 'a'-'f' are 97-102, 'A'-'F' are 65-70).
pub open spec fn hex_digit_value(b: u8) -> Option<u8> {
    if 48 <= b <= 57 {
        Some((b - 48) as u8)
    } else if 97 <= b <= 102 {
        Some((b - 87) as u8)
    } else if 65 <= b <= 70 {
        Some((b - 55) as u8)
    } else {
        None
    }
}

/// The bytes that a hex string of even length denotes, two digits per byte,
/// high digit first; `None` for odd length or a character that is no hex digit.
pub open spec fn hex_decoded(s: Seq<u8>) -> Option<Seq<u8>> {
    if s.len() % 2 != 0 {
        None
    } else if forall|i: int| 0 <= i < s.len() ==> (#[trigger] hex_digit_value(s[i])) is Some {
        Some(
            Seq::new(
                s.len() / 2,
                |i: int|
                    (hex_digit_value(s[2 * i])->0 * 16 + hex_digit_value(s[2 * i + 1])->0) as u8,
            ),
        )
    } else {
        None
    }
}

/// The lower-case hex digit for `v < 16`.
pub open spec fn lower_hex_digit(v: int) -> char {
    if v < 10 {
        ((v + 48) as u32) as char
    } else {
        ((v + 87) as u32) as char
    }
}

/// Lower-case hex notation of `bytes`, two digits per byte, high digit first.
pub open spec fn hex_lower(bytes: Seq<u8>) -> Seq<char> {
    Seq::new(
        2 * bytes.len(),
        |i: int|
            if i % 2 == 0 {
                lower_hex_digit((bytes[i / 2] / 16) as int)
            } else {
                lower_hex_digit((bytes[i / 2] % 16) as int)
            },
    )
}

/// Calls `hex::encode`, which writes each byte as two lower-case hex digits,
/// high digit first (hex 0.4: `encode_to_iter` over `HEX_CHARS_LOWER`).
#[verifier::external_body]
fn hex_encode(bytes: &[u8]) -> (s: String)
    ensures
        s@ == hex_lower(bytes@),
{
    hex::encode(bytes)
}

/// Calls `hex::decode`: odd length and any character outside `0-9a-fA-F` are
/// errors, otherwise each pair of digits gives one byte (hex 0.4: `val` and
/// `FromHex for Vec<u8>`). The error's detail is dropped.
#[verifier::external_body]
fn hex_decode(s: &str) -> (r: Option<Vec<u8>>)
    ensures
        r matches Some(v) ==> hex_decoded(s.spec_bytes()) == Some(v@),
        r is None ==> hex_decoded(s.spec_bytes()) is None,
{
    hex::decode(s).ok()
}

// ---------- HMAC and randomness ----------

/// What HMAC-SHA256 with this key gives for this message.
pub uninterp spec fn hmac_sha256_of(key: Seq<u8>, msg: Seq<u8>) -> Seq<u8>;

/// Calls `hmac::Hmac::<Sha256>` (`new_from_slice`, `update`, `finalize`): the
/// 32-byte tag of `msg` under `key`, which the contract only names. HMAC takes
/// keys of any length, so `new_from_slice` does not fail.
#[verifier::external_body]
fn hmac_sha256(key: &[u8], msg: &[u8]) -> (tag: [u8; 32])
    ensures
        tag@ == hmac_sha256_of(key@, msg@),
{
    let mut mac = <Hmac<Sha256> as KeyInit>::new_from_slice(key).expect("hmac accepts any key length");
    mac.update(msg);
    mac.finalize().into_bytes().into()
}

/// Calls `rand::fill` on a buffer of `n` bytes. The bytes are random; only
/// their number is claimed.
#[verifier::external_body]
fn random_bytes(n: usize) -> (buf: Vec<u8>)
    ensures
        buf@.len() == n,
{
    let mut buf = vec![0u8; n];
    rand::fill(&mut buf[..]);
    buf
}

/// Calls `rand::random::<u32>()`. Nothing is claimed of the value.
#[verifier::external_body]
fn random_u32() -> u32 {
    rand::random::<u32>()
}

/// The key that a stored secret stands for: its hex decoding, or no bytes at
/// all when it is not valid hex.
pub open spec fn secret_key(secret_hex: Seq<u8>) -> Seq<u8> {
    match hex_decoded(secret_hex) {
        Some(k) => k,
        None => Seq::empty(),
    }
}

/// The proof of possession that answers a challenge: lower-case hex of
/// HMAC-SHA256 over the nonce's UTF-8 bytes, keyed with the decoded secret.
pub open spec fn challenge_mac(secret_hex: Seq<u8>, nonce: Seq<u8>) -> Seq<char> {
    hex_lower(hmac_sha256_of(secret_key(secret_hex), nonce))
}

/// The answer to a challenge is keyed with the whole decoded secret: a secret
/// whose hex decodes to the bytes `k`, of any length, gives the lower-case hex
/// of HMAC-SHA256 under exactly `k`.
pub proof fn lemma_mac_keyed_with_whole_secret(secret: Seq<u8>, k: Seq<u8>, nonce: Seq<u8>)
    requires
        hex_decoded(secret) == Some(k),
    ensures
        challenge_mac(secret, nonce) == hex_lower(hmac_sha256_of(k, nonce)),
{
}

/// Lower-case hex decodes back to the bytes it was written from.
pub proof fn lemma_hex_round_trip(b: Seq<u8>)
    ensures
        hex_decoded(encode_utf8(hex_lower(b))) == Some(b),
{
    let h = hex_lower(b);
    assert forall|i: int| 0 <= i < h.len() implies '\0' <= #[trigger] h[i] <= '\u{7f}' by {
        let v: int = if i % 2 == 0 { (b[i / 2] / 16) as int } else { (b[i / 2] % 16) as int };
        assert(0 <= v < 16);
        assert(h[i] == lower_hex_digit(v));
    }
    assert(is_ascii_chars(h));
    is_ascii_chars_encode_utf8(h);
    let e = encode_utf8(h);
    assert forall|i: int| 0 <= i < e.len() implies #[trigger] hex_digit_value(e[i]) == Some(
        (if i % 2 == 0 { b[i / 2] / 16 } else { b[i / 2] % 16 }) as u8,
    ) by {
        let v: int = if i % 2 == 0 { (b[i / 2] / 16) as int } else { (b[i / 2] % 16) as int };
        assert(h[i] == lower_hex_digit(v));
        assert(e[i] == h[i] as u8);
    }
    let d = Seq::new(
        e.len() / 2,
        |i: int| (hex_digit_value(e[2 * i])->0 * 16 + hex_digit_value(e[2 * i + 1])->0) as u8,
    );
    assert forall|i: int| 0 <= i < b.len() implies d[i] == b[i] by {
        assert(hex_digit_value(e[2 * i]) == Some((b[i] / 16) as u8));
        assert(hex_digit_value(e[2 * i + 1]) == Some((b[i] % 16) as u8));
    }
    assert(d =~= b);
}

/// A secret handed out at pairing, the lower-case hex of some bytes, keys the
/// answer to a challenge with all of those bytes.
pub proof fn lemma_paired_secret_keys_with_all_bytes(b: Seq<u8>, nonce: Seq<u8>)
    ensures
        challenge_mac(encode_utf8(hex_lower(b)), nonce) == hex_lower(hmac_sha256_of(b, nonce)),
{
    lemma_hex_round_trip(b);
    lemma_mac_keyed_with_whole_secret(encode_utf8(hex_lower(b)), b, nonce);
}

/// HMAC-SHA256 of `nonce` under the hex-encoded secret, as lower-case hex.
pub fn hmac_hex(secret_hex: &str, nonce: &str) -> (mac: String)
    ensures
        mac@ == challenge_mac(secret_hex.spec_bytes(), nonce.spec_bytes()),
{
    let key = match hex_decode(secret_hex) {
        Some(k) => k,
        None => Vec::new(),
    };
    let tag = hmac_sha256(key.as_slice(), nonce.as_bytes());
    hex_encode(&tag)
}

/// `bytes` random bytes as lower-case hex.
pub fn random_hex(bytes: usize) -> (s: String)
    ensures
        exists|b: Seq<u8>| b.len() == bytes && s@ == hex_lower(b),
{
    let buf = random_bytes(bytes);
    let s = hex_encode(buf.as_slice());
    assert(buf@.len() == bytes && s@ == hex_lower(buf@));
    s
}

/// The four-digit pairing code that a random draw `r` gives.
pub open spec fn code_of(r: u32) -> Seq<char> {
    decimal_padded((r % 10_000) as nat, 4)
}

/// The four-digit pairing code for the random draw `r`: `r` modulo 10000,
/// zero-padded.
pub fn pairing_code_from(r: u32) -> (code: String)
    ensures
        code@ == code_of(r),
{
    let mut out: Vec<char> = Vec::new();
    push_decimal_padded(&mut out, (r % 10_000) as u64, 4);
    string_of(&out)
}

proof fn lemma_decimal_is_digits(n: nat)
    ensures
        forall|i: int| 0 <= i < decimal(n).len() ==> '0' <= #[trigger] decimal(n)[i] <= '9',
        n < 10 ==> decimal(n).len() == 1,
        n < 100 ==> decimal(n).len() <= 2,
        n < 1000 ==> decimal(n).len() <= 3,
        n < 10000 ==> decimal(n).len() <= 4,
    decreases n,
{
    if n < 10 {
        assert('0' <= digit_char(n) <= '9');
    } else {
        lemma_decimal_is_digits(n / 10);
        let p = decimal(n / 10);
        let last = digit_char(n % 10);
        assert('0' <= last <= '9');
        assert(decimal(n) == p.push(last));
        assert forall|i: int| 0 <= i < decimal(n).len() implies '0' <= #[trigger] decimal(n)[i] <= '9' by {
            if i < p.len() {
                assert(decimal(n)[i] == p[i]);
            }
        }
    }
}

/// Every pairing code is exactly four decimal digits.
pub proof fn lemma_pairing_code_is_four_digits(r: u32)
    ensures
        code_of(r).len() == 4,
        forall|i: int| 0 <= i < 4 ==> '0' <= #[trigger] code_of(r)[i] <= '9',
{
    let n = (r % 10_000) as nat;
    lemma_decimal_is_digits(n);
    let d = decimal(n);
    let c = code_of(r);
    assert(c == pad_zeros(d, 4));
    assert forall|i: int| 0 <= i < 4 implies '0' <= #[trigger] c[i] <= '9' by {
        if d.len() < 4 {
            let k = 4 - d.len();
            if i >= k {
                assert(c[i] == d[i - k]);
            }
        }
    }
}

/// A random four-digit pairing code.
pub fn pairing_code() -> (code: String)
    ensures
        exists|r: u32| code@ == code_of(r),
{
    let r = random_u32();
    pairing_code_from(r)
}

// ---------- JSON frames ----------

/// The ASCII byte of a lower-case hex digit.
pub open spec fn hex_byte(v: int) -> u8 {
    if v < 10 {
        (v + 48) as u8
    } else {
        (v + 87) as u8
    }
}

/// How serde_json writes one byte of a string's UTF-8 inside the quotes: the
/// quote and the backslash escaped, `\b \t \n \f \r` for those controls,
/// `\u00xx` (lower-case hex) for the other bytes below 0x20, and every other
/// byte as it is (serde_json 1.0: `ESCAPE` and `write_char_escape`).
pub open spec fn json_escape_byte(b: u8) -> Seq<u8> {
    if b == 0x22 {
        seq![0x5cu8, 0x22u8]
    } else if b == 0x5c {
        seq![0x5cu8, 0x5cu8]
    } else if b == 0x08 {
        seq![0x5cu8, 0x62u8]
    } else if b == 0x09 {
        seq![0x5cu8, 0x74u8]
    } else if b == 0x0a {
        seq![0x5cu8, 0x6eu8]
    } else if b == 0x0c {
        seq![0x5cu8, 0x66u8]
    } else if b == 0x0d {
        seq![0x5cu8, 0x72u8]
    } else if b < 0x20 {
        seq![0x5cu8, 0x75u8, 0x30u8, 0x30u8, hex_byte((b / 16) as int), hex_byte((b % 16) as int)]
    } else {
        seq![b]
    }
}

/// The escaped bytes, one after the other.
pub open spec fn json_escaped(bytes: Seq<u8>) -> Seq<u8>
    decreases bytes.len(),
{
    if bytes.len() == 0 {
        Seq::empty()
    } else {
        json_escaped(bytes.drop_last()) + json_escape_byte(bytes.last())
    }
}

/// What `serde_json::to_vec` writes for a JSON string holding `s`: its UTF-8
/// escaped (see [`json_escape_byte`]) between double quotes.
pub open spec fn json_string_of(s: Seq<char>) -> Seq<u8> {
    seq![0x22u8] + json_escaped(encode_utf8(s)) + seq![0x22u8]
}

/// Calls `serde_json::to_vec` on a string slice: `s` as a quoted and escaped
/// JSON string (see [`json_string_of`]). Serialising a `str` into a vector
/// does not fail, so the error arm is never taken.
#[verifier::external_body]
fn json_string(s: &str) -> (json: Vec<u8>)
    ensures
        json@ == json_string_of(s@),
{
    serde_json::to_vec(s).unwrap_or_default()
}

/// The ASCII bytes of a decimal number.
pub open spec fn decimal_bytes(n: nat) -> Seq<u8> {
    decimal(n).map_values(|c: char| c as u8)
}

/// The UTF-8 bytes of a string slice.
pub open spec fn utf8(s: &str) -> Seq<u8> {
    s.spec_bytes()
}

/// The JSON object that a frame is sent as: the tag `t` in snake case first,
/// then the variant's fields in declaration order (serde's internally tagged
/// representation), each string value written as serde_json writes it.
pub open spec fn frame_json(f: Frame) -> Seq<u8> {
    frame_json_fields(f) + utf8("}")
}

/// The JSON object of a frame without its closing brace.
pub open spec fn frame_json_fields(f: Frame) -> Seq<u8> {
    match f {
        Frame::Challenge { v, name, nonce } => utf8("{\"t\":\"challenge\",\"v\":") + decimal_bytes(
            v as nat,
        ) + utf8(",\"name\":") + json_string_of(name@) + utf8(",\"nonce\":") + json_string_of(
            nonce@,
        ),
        Frame::Auth { id, name, mac } => utf8("{\"t\":\"auth\",\"id\":") + json_string_of(id@)
            + utf8(",\"name\":") + json_string_of(name@) + utf8(",\"mac\":") + json_string_of(mac@),
        Frame::Pair { name } => utf8("{\"t\":\"pair\",\"name\":") + json_string_of(name@),
        Frame::PairCode { code } => utf8("{\"t\":\"pair_code\",\"code\":") + json_string_of(code@),
        Frame::Paired { id, secret } => utf8("{\"t\":\"paired\",\"id\":") + json_string_of(id@)
            + utf8(",\"secret\":") + json_string_of(secret@),
        Frame::PairDenied { reason } => utf8("{\"t\":\"pair_denied\",\"reason\":")
            + json_string_of(reason@),
        Frame::Okay { name } => utf8("{\"t\":\"ok\",\"name\":") + json_string_of(name@),
        Frame::Error { error } => utf8("{\"t\":\"err\",\"error\":") + json_string_of(error@),
        Frame::Clip { mime, b64 } => utf8("{\"t\":\"clip\",\"mime\":") + json_string_of(mime@)
            + utf8(",\"b64\":") + json_string_of(b64@),
        Frame::Ping => utf8("{\"t\":\"ping\""),
        Frame::Pong => utf8("{\"t\":\"pong\""),
    }
}

/// Appends the ASCII decimal notation of `n` to `out`.
fn push_decimal_bytes(out: &mut Vec<u8>, n: u64)
    ensures
        final(out)@ == old(out)@ + decimal_bytes(n as nat),
{
    let mut digits: Vec<char> = Vec::new();
    push_decimal(&mut digits, n);
    assert(digits@ =~= decimal(n as nat));
    let mut i: usize = 0;
    while i < digits.len()
        invariant
            i <= digits@.len(),
            out@ == old(out)@ + digits@.take(i as int).map_values(|c: char| c as u8),
        decreases digits@.len() - i,
    {
        out.push(digits[i] as u8);
        i = i + 1;
        assert(digits@.take(i as int).map_values(|c: char| c as u8) =~= digits@.take(
            i - 1,
        ).map_values(|c: char| c as u8).push(digits@[i - 1] as u8));
    }
    assert(digits@.take(digits@.len() as int) =~= digits@);
}

/// Appends a string field: the text before it, then the value as a JSON
/// string.
fn push_field(out: &mut Vec<u8>, before: &str, value: &str)
    ensures
        final(out)@ == old(out)@ + utf8(before) + json_string_of(value@),
{
    append_bytes(out, before.as_bytes());
    let js = json_string(value);
    append_bytes(out, js.as_slice());
}

/// Encodes one frame as a line: its JSON object and a newline.
pub fn encode(frame: &Frame) -> (line: Vec<u8>)
    ensures
        line@ == frame_json(*frame).push(10u8),
{
    let mut v: Vec<u8> = Vec::new();
    match frame {
        Frame::Challenge { v: version, name, nonce } => {
            append_bytes(&mut v, "{\"t\":\"challenge\",\"v\":".as_bytes());
            push_decimal_bytes(&mut v, *version as u64);
            push_field(&mut v, ",\"name\":", name.as_str());
            push_field(&mut v, ",\"nonce\":", nonce.as_str());
        },
        Frame::Auth { id, name, mac } => {
            push_field(&mut v, "{\"t\":\"auth\",\"id\":", id.as_str());
            push_field(&mut v, ",\"name\":", name.as_str());
            push_field(&mut v, ",\"mac\":", mac.as_str());
        },
        Frame::Pair { name } => {
            push_field(&mut v, "{\"t\":\"pair\",\"name\":", name.as_str());
        },
        Frame::PairCode { code } => {
            push_field(&mut v, "{\"t\":\"pair_code\",\"code\":", code.as_str());
        },
        Frame::Paired { id, secret } => {
            push_field(&mut v, "{\"t\":\"paired\",\"id\":", id.as_str());
            push_field(&mut v, ",\"secret\":", secret.as_str());
        },
        Frame::PairDenied { reason } => {
            push_field(&mut v, "{\"t\":\"pair_denied\",\"reason\":", reason.as_str());
        },
        Frame::Okay { name } => {
            push_field(&mut v, "{\"t\":\"ok\",\"name\":", name.as_str());
        },
        Frame::Error { error } => {
            push_field(&mut v, "{\"t\":\"err\",\"error\":", error.as_str());
        },
        Frame::Clip { mime, b64 } => {
            push_field(&mut v, "{\"t\":\"clip\",\"mime\":", mime.as_str());
            push_field(&mut v, ",\"b64\":", b64.as_str());
        },
        Frame::Ping => {
            append_bytes(&mut v, "{\"t\":\"ping\"".as_bytes());
        },
        Frame::Pong => {
            append_bytes(&mut v, "{\"t\":\"pong\"".as_bytes());
        },
    }
    append_bytes(&mut v, "}".as_bytes());
    v.push(10u8);
    v
}

} // verus!

verus! {

// ---------- frames in messages ----------

/// The lower-case hex digits of a number below 128, without leading zeros.
pub open spec fn small_hex(v: nat) -> Seq<char> {
    if v < 16 {
        seq![lower_hex_digit(v as int)]
    } else {
        seq![lower_hex_digit((v / 16) as int), lower_hex_digit((v % 16) as int)]
    }
}

/// What `char::escape_debug` yields for a character.
pub uninterp spec fn char_escape_debug_of(c: char) -> Seq<char>;

/// Calls `char::escape_debug` and collects what it yields. The contract only
/// names the result: for characters beyond ASCII it depends on std's tables of
/// printable and grapheme-extending characters, which are not stated here.
#[verifier::external_body]
fn escape_debug_char(c: char) -> (s: String)
    ensures
        s@ == char_escape_debug_of(c),
{
    c.escape_debug().to_string()
}

/// How Rust's `Debug` writes one character inside a quoted string: the quote,
/// the backslash and `\n`, `\r`, `\t`, `\0` by their escapes, the other ASCII
/// control characters as `\u{..}`, other ASCII characters as they are, and a
/// character beyond ASCII as `char::escape_debug` writes it (escaped as
/// `\u{..}` when it is not printable or extends a grapheme, else unchanged).
pub open spec fn debug_char(c: char) -> Seq<char> {
    if c == '"' {
        seq!['\\', '"']
    } else if c == '\\' {
        seq!['\\', '\\']
    } else if c == '\n' {
        seq!['\\', 'n']
    } else if c == '\r' {
        seq!['\\', 'r']
    } else if c == '\t' {
        seq!['\\', 't']
    } else if c == '\0' {
        seq!['\\', '0']
    } else if (c as u32) < 0x20 || (c as u32) == 0x7f {
        "\\u{"@ + small_hex(c as u32 as nat) + "}"@
    } else if (c as u32) < 0x80 {
        seq![c]
    } else {
        char_escape_debug_of(c)
    }
}

/// The escaped characters of `s`, one after the other.
pub open spec fn debug_chars(s: Seq<char>) -> Seq<char>
    decreases s.len(),
{
    if s.len() == 0 {
        Seq::empty()
    } else {
        debug_chars(s.drop_last()) + debug_char(s.last())
    }
}

/// A string as `Debug` shows it: quoted and escaped.
pub open spec fn debug_str(s: Seq<char>) -> Seq<char> {
    "\""@ + debug_chars(s) + "\""@
}

/// A frame as it is shown in messages, in the form `Debug` gives the frame on
/// the wire (with the wire's variant names `Ok` and `Err`).
pub open spec fn frame_debug(f: Frame) -> Seq<char> {
    match f {
        Frame::Challenge { v, name, nonce } => "Challenge { v: "@ + decimal(v as nat) + ", name: "@
            + debug_str(name@) + ", nonce: "@ + debug_str(nonce@) + " }"@,
        Frame::Auth { id, name, mac } => "Auth { id: "@ + debug_str(id@) + ", name: "@ + debug_str(
            name@,
        ) + ", mac: "@ + debug_str(mac@) + " }"@,
        Frame::Pair { name } => "Pair { name: "@ + debug_str(name@) + " }"@,
        Frame::PairCode { code } => "PairCode { code: "@ + debug_str(code@) + " }"@,
        Frame::Paired { id, secret } => "Paired { id: "@ + debug_str(id@) + ", secret: "@
            + debug_str(secret@) + " }"@,
        Frame::PairDenied { reason } => "PairDenied { reason: "@ + debug_str(reason@) + " }"@,
        Frame::Okay { name } => "Ok { name: "@ + debug_str(name@) + " }"@,
        Frame::Error { error } => "Err { error: "@ + debug_str(error@) + " }"@,
        Frame::Clip { mime, b64 } => "Clip { mime: "@ + debug_str(mime@) + ", b64: "@ + debug_str(
            b64@,
        ) + " }"@,
        Frame::Ping => "Ping"@,
        Frame::Pong => "Pong"@,
    }
}

/// A frame that may be missing, as `Debug` shows an `Option`.
pub open spec fn maybe_frame_debug(f: Option<Frame>) -> Seq<char> {
    match f {
        Some(x) => "Some("@ + frame_debug(x) + ")"@,
        None => "None"@,
    }
}

fn hex_digit_char(v: u32) -> (c: char)
    requires
        v < 16,
    ensures
        c == lower_hex_digit(v as int),
{
    if v == 0 { '0' }
    else if v == 1 { '1' }
    else if v == 2 { '2' }
    else if v == 3 { '3' }
    else if v == 4 { '4' }
    else if v == 5 { '5' }
    else if v == 6 { '6' }
    else if v == 7 { '7' }
    else if v == 8 { '8' }
    else if v == 9 { '9' }
    else if v == 10 { 'a' }
    else if v == 11 { 'b' }
    else if v == 12 { 'c' }
    else if v == 13 { 'd' }
    else if v == 14 { 'e' }
    else { 'f' }
}

fn push_debug_char(out: &mut Vec<char>, c: char)
    ensures
        final(out)@ == old(out)@ + debug_char(c),
{
    let v = c as u32;
    proof {
        reveal_strlit("\\u{");
        reveal_strlit("}");
    }
    if c == '"' {
        out.push('\\');
        out.push('"');
    } else if c == '\\' {
        out.push('\\');
        out.push('\\');
    } else if c == '\n' {
        out.push('\\');
        out.push('n');
    } else if c == '\r' {
        out.push('\\');
        out.push('r');
    } else if c == '\t' {
        out.push('\\');
        out.push('t');
    } else if c == '\0' {
        out.push('\\');
        out.push('0');
    } else if v < 0x20 || v == 0x7f {
        out.push('\\');
        out.push('u');
        out.push('{');
        if v >= 16 {
            out.push(hex_digit_char(v / 16));
        }
        out.push(hex_digit_char(v % 16));
        out.push('}');
    } else if v < 0x80 {
        out.push(c);
    } else {
        let e = escape_debug_char(c);
        push_vec(out, &chars_of(e.as_str()));
    }
    assert(out@ =~= old(out)@ + debug_char(c));
}

/// Appends `s` quoted and escaped (see [`debug_str`]).
fn push_debug_str(out: &mut Vec<char>, s: &str)
    ensures
        final(out)@ == old(out)@ + debug_str(s@),
{
    let cs = chars_of(s);
    out.push('"');
    let ghost start = out@;
    let mut i: usize = 0;
    while i < cs.len()
        invariant
            i <= cs@.len(),
            out@ == start + debug_chars(cs@.take(i as int)),
        decreases cs@.len() - i,
    {
        push_debug_char(out, cs[i]);
        i = i + 1;
        assert(cs@.take(i as int).drop_last() =~= cs@.take(i - 1));
    }
    assert(cs@.take(cs@.len() as int) =~= cs@);
    out.push('"');
    proof {
        reveal_strlit("\"");
    }
    assert(out@ =~= old(out)@ + debug_str(s@));
}

fn push_text(out: &mut Vec<char>, s: &str)
    ensures
        final(out)@ == old(out)@ + s@,
{
    push_vec(out, &chars_of(s));
}

/// Appends a frame as it is shown in messages (see [`frame_debug`]).
fn push_frame_debug(out: &mut Vec<char>, f: &Frame)
    ensures
        final(out)@ == old(out)@ + frame_debug(*f),
{
    let ghost start = out@;
    match f {
        Frame::Challenge { v, name, nonce } => {
            push_text(out, "Challenge { v: ");
            push_decimal(out, *v as u64);
            push_text(out, ", name: ");
            push_debug_str(out, name.as_str());
            push_text(out, ", nonce: ");
            push_debug_str(out, nonce.as_str());
            push_text(out, " }");
        },
        Frame::Auth { id, name, mac } => {
            push_text(out, "Auth { id: ");
            push_debug_str(out, id.as_str());
            push_text(out, ", name: ");
            push_debug_str(out, name.as_str());
            push_text(out, ", mac: ");
            push_debug_str(out, mac.as_str());
            push_text(out, " }");
        },
        Frame::Pair { name } => {
            push_text(out, "Pair { name: ");
            push_debug_str(out, name.as_str());
            push_text(out, " }");
        },
        Frame::PairCode { code } => {
            push_text(out, "PairCode { code: ");
            push_debug_str(out, code.as_str());
            push_text(out, " }");
        },
        Frame::Paired { id, secret } => {
            push_text(out, "Paired { id: ");
            push_debug_str(out, id.as_str());
            push_text(out, ", secret: ");
            push_debug_str(out, secret.as_str());
            push_text(out, " }");
        },
        Frame::PairDenied { reason } => {
            push_text(out, "PairDenied { reason: ");
            push_debug_str(out, reason.as_str());
            push_text(out, " }");
        },
        Frame::Okay { name } => {
            push_text(out, "Ok { name: ");
            push_debug_str(out, name.as_str());
            push_text(out, " }");
        },
        Frame::Error { error } => {
            push_text(out, "Err { error: ");
            push_debug_str(out, error.as_str());
            push_text(out, " }");
        },
        Frame::Clip { mime, b64 } => {
            push_text(out, "Clip { mime: ");
            push_debug_str(out, mime.as_str());
            push_text(out, ", b64: ");
            push_debug_str(out, b64.as_str());
            push_text(out, " }");
        },
        Frame::Ping => {
            push_text(out, "Ping");
        },
        Frame::Pong => {
            push_text(out, "Pong");
        },
    }
    assert(out@ =~= start + frame_debug(*f));
}

/// Appends a frame that may be missing, as it is shown in messages.
pub fn push_maybe_frame(out: &mut Vec<char>, f: &Option<Frame>)
    ensures
        final(out)@ == old(out)@ + maybe_frame_debug(*f),
{
    let ghost start = out@;
    match f {
        Some(x) => {
            push_text(out, "Some(");
            push_frame_debug(out, x);
            push_text(out, ")");
        },
        None => {
            push_text(out, "None");
        },
    }
    assert(out@ =~= start + maybe_frame_debug(*f));
}

/// A frame as it is shown in messages.
pub fn show_frame(f: &Frame) -> (s: String)
    ensures
        s@ == frame_debug(*f),
{
    let mut out: Vec<char> = Vec::new();
    push_frame_debug(&mut out, f);
    string_of(&out)
}

/// A frame that may be missing, as it is shown in messages.
pub fn show_maybe_frame(f: &Option<Frame>) -> (s: String)
    ensures
        s@ == maybe_frame_debug(*f),
{
    let mut out: Vec<char> = Vec::new();
    push_maybe_frame(&mut out, f);
    string_of(&out)
}

} // verus!
