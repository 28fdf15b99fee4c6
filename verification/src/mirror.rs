//! Mirroring the clipboard once a link is up: what each side sends when its
//! own clipboard changes, and what it does with a frame from the peer. Both
//! roles use the same rules.

use base64::{engine::general_purpose::STANDARD as B64, Engine};
use vstd::prelude::*;
use vstd::string::StringSliceAdditionalSpecFns;
use vstd::utf8::encode_utf8;

use crate::clip::{clip_fingerprint, echo_step, Clip, Echo};
use crate::protocol::Frame;

verus! {

/// `base64::DecodeError`, carried through opaque.
#[verifier::external_type_specification]
#[verifier::external_body]
pub struct ExDecodeError(base64::DecodeError);

/// The character of the standard base64 alphabet for the six bits `v`:
/// `A`-`Z`, `a`-`z`, `0`-`9`, `+`, `/`.
pub open spec fn base64_digit(v: int) -> char {
    if v < 26 {
        ((v + 65) as u32) as char
    } else if v < 52 {
        ((v + 71) as u32) as char
    } else if v < 62 {
        ((v - 4) as u32) as char
    } else if v == 62 {
        '+'
    } else {
        '/'
    }
}

/// Standard base64 with padding (RFC 4648, what
/// `base64::engine::general_purpose::STANDARD` writes): each group of three
/// bytes becomes four characters, and a last group of one or two bytes is
/// filled up with `=`.
pub open spec fn base64_of(b: Seq<u8>) -> Seq<char>
    decreases b.len(),
{
    if b.len() == 0 {
        Seq::empty()
    } else if b.len() == 1 {
        seq![base64_digit((b[0] / 4) as int), base64_digit((b[0] % 4) * 16), '=', '=']
    } else if b.len() == 2 {
        seq![
            base64_digit((b[0] / 4) as int),
            base64_digit((b[0] % 4) * 16 + b[1] / 16),
            base64_digit((b[1] % 16) * 4),
            '=',
        ]
    } else {
        seq![
            base64_digit((b[0] / 4) as int),
            base64_digit((b[0] % 4) * 16 + b[1] / 16),
            base64_digit((b[1] % 16) * 4 + b[2] / 64),
            base64_digit((b[2] % 64) as int),
        ] + base64_of(b.skip(3))
    }
}

/// What the standard base64 engine decodes `text` to, `None` where it reports
/// an error.
pub uninterp spec fn base64_decoded_of(text: Seq<u8>) -> Option<Seq<u8>>;

/// Calls `STANDARD.encode`. Claimed: the text is the padded standard base64
/// of `bytes` (see [`base64_of`]), and the same engine decodes it back to
/// `bytes` (base64 0.22: canonical padded input is accepted by `decode`).
#[verifier::external_body]
fn base64_encode(bytes: &[u8]) -> (text: String)
    ensures
        text@ == base64_of(bytes@),
        base64_decoded_of(encode_utf8(text@)) == Some(bytes@),
{
    B64.encode(bytes)
}

/// Calls `STANDARD.decode`: the named decoding of the text, or the engine's
/// error. Which inputs it rejects is not stated.
#[verifier::external_body]
fn base64_decode(text: &str) -> (r: Result<Vec<u8>, base64::DecodeError>)
    ensures
        r matches Ok(v) ==> base64_decoded_of(text.spec_bytes()) == Some(v@),
        r is Err <==> base64_decoded_of(text.spec_bytes()) is None,
{
    B64.decode(text)
}

/// What to do with a frame from the peer.
#[derive(Debug)]
pub enum Incoming {
    /// Put this clip on the local clipboard (and, on the host, pass it on to
    /// the other guests).
    Apply(Clip),
    /// Send this frame back.
    Reply(Frame),
    /// Nothing to do.
    Ignore,
}

/// The frame that carries `clip`: its MIME type and its data in base64.
pub fn clip_frame(clip: &Clip) -> (f: Frame)
    ensures
        f matches Frame::Clip { mime, b64 } && mime@ == clip.mime@ && b64@ == base64_of(clip.data@)
            && base64_decoded_of(encode_utf8(b64@)) == Some(clip.data@),
{
    let b64 = base64_encode(clip.data.as_slice());
    Frame::Clip { mime: clip.mime.clone(), b64 }
}

/// The frame that announces a local clipboard change, if the change is new;
/// a change that came from the peer (or repeats the last one) is not sent.
pub fn outgoing(echo: &mut Echo, clip: &Clip) -> (f: Option<Frame>)
    ensures
        final(echo).last_seen() == echo_step(
            old(echo).last_seen(),
            clip_fingerprint(clip.mime@, clip.data@),
        ).1,
        f is Some == echo_step(old(echo).last_seen(), clip_fingerprint(clip.mime@, clip.data@)).0,
        f matches Some(fr) ==> fr matches Frame::Clip { mime, b64 } && mime@ == clip.mime@ && b64@
            == base64_of(clip.data@) && base64_decoded_of(encode_utf8(b64@)) == Some(clip.data@),
{
    if echo.note(clip) {
        Some(clip_frame(clip))
    } else {
        None
    }
}

/// The clip that a frame from the peer puts on the local clipboard, as MIME
/// type and data, given the fingerprint the echo guard holds: a clip frame
/// whose base64 decodes to data that is not empty and is new to the guard.
pub open spec fn applied_by(last: Option<Seq<u8>>, frame: Frame) -> Option<(Seq<char>, Seq<u8>)> {
    match frame {
        Frame::Clip { mime, b64 } => match base64_decoded_of(encode_utf8(b64@)) {
            Some(data) => if data.len() > 0 && echo_step(last, clip_fingerprint(mime@, data)).0 {
                Some((mime@, data))
            } else {
                None
            },
            None => None,
        },
        _ => None,
    }
}

/// Handles one frame from the peer. A clip frame is decoded; an empty clip is
/// dropped; a clip that is new to the echo guard is applied, and recorded so
/// that it is not sent back. A ping is answered with a pong. Anything else is
/// ignored. Undecodable base64 is an error that ends the session.
pub fn incoming(echo: &mut Echo, frame: Frame) -> (r: Result<Incoming, base64::DecodeError>)
    ensures
        match frame {
            Frame::Clip { mime, b64 } => match base64_decoded_of(encode_utf8(b64@)) {
                None => r is Err && final(echo).last_seen() == old(echo).last_seen(),
                Some(data) => if data.len() == 0 {
                    r matches Ok(Incoming::Ignore) && final(echo).last_seen() == old(
                        echo,
                    ).last_seen()
                } else {
                    let step = echo_step(old(echo).last_seen(), clip_fingerprint(mime@, data));
                    &&& final(echo).last_seen() == step.1
                    &&& step.0 ==> (r matches Ok(Incoming::Apply(c)) && c.mime@ == mime@ && c.data@
                        == data)
                    &&& !step.0 ==> r matches Ok(Incoming::Ignore)
                },
            },
            Frame::Ping => r matches Ok(Incoming::Reply(Frame::Pong)) && final(echo).last_seen()
                == old(echo).last_seen(),
            _ => r matches Ok(Incoming::Ignore) && final(echo).last_seen() == old(echo).last_seen(),
        },
        r matches Ok(Incoming::Apply(c)) ==> applied_by(old(echo).last_seen(), frame) == Some(
            (c.mime@, c.data@),
        ),
        !(r matches Ok(Incoming::Apply(_))) ==> applied_by(old(echo).last_seen(), frame) is None,
{
    match frame {
        Frame::Clip { mime, b64 } => {
            let data = match base64_decode(b64.as_str()) {
                Ok(d) => d,
                Err(e) => {
                    return Err(e);
                },
            };
            if data.len() == 0 {
                return Ok(Incoming::Ignore);
            }
            let clip = Clip { mime, data };
            if echo.note(&clip) {
                Ok(Incoming::Apply(clip))
            } else {
                Ok(Incoming::Ignore)
            }
        },
        Frame::Ping => Ok(Incoming::Reply(Frame::Pong)),
        _ => Ok(Incoming::Ignore),
    }
}

/// No echo: once a clip from the peer has been applied, the local clipboard
/// change that applying it causes is not sent back.
pub proof fn lemma_applied_clip_is_not_echoed(last: Option<Seq<u8>>, mime: Seq<char>, data: Seq<u8>)
    ensures
        echo_step(echo_step(last, clip_fingerprint(mime, data)).1, clip_fingerprint(mime, data)).0
            == false,
{
}

/// A clip sent by one side arrives intact: the frame that `outgoing` (or
/// `clip_frame`) sends for a clip with data is applied on the other side with
/// the same MIME type and data, unless that side has just seen the same clip.
pub proof fn lemma_sent_clip_arrives(receiver_last: Option<Seq<u8>>, sent: Frame, mime: Seq<char>, data: Seq<u8>)
    requires
        sent matches Frame::Clip { mime: m, b64 } && m@ == mime && base64_decoded_of(
            encode_utf8(b64@),
        ) == Some(data),
        data.len() > 0,
        receiver_last != Some(clip_fingerprint(mime, data)),
    ensures
        applied_by(receiver_last, sent) == Some((mime, data)),
{
}

} // verus!
