//! Clipboard payloads, their fingerprints, and the echo guard that keeps a
//! clip that came from the peer from being sent back to it.

use sha2::{Digest, Sha256};
use vstd::prelude::*;
use vstd::utf8::{char_is_scalar, char_u32_cast, decode_utf8, encode_scalar, encode_utf8, encode_utf8_decode_utf8, is_scalar, valid_utf8};

use crate::text::{chars_of, decimal, push_decimal, str_equal, string_of};

verus! {

/// The MIME type of a text clip.
pub const MIME_TEXT: &'static str = "text/plain";

/// The MIME type of an image clip.
pub const MIME_PNG: &'static str = "image/png";

/// What `sha2::Sha256::digest` returns for the given bytes.
pub uninterp spec fn sha256_of(bytes: Seq<u8>) -> Seq<u8>;

/// What `String::from_utf8_lossy` makes of the given bytes.
pub uninterp spec fn utf8_lossy(bytes: Seq<u8>) -> Seq<char>;

/// Calls `sha2::Sha256::digest`. The contract only names the digest of
/// `bytes`; the SHA-256 computation itself is not stated.
#[verifier::external_body]
fn sha256(bytes: &[u8]) -> (digest: [u8; 32])
    ensures
        digest@ == sha256_of(bytes@),
{
    Sha256::digest(bytes).into()
}

/// Calls `String::from_utf8_lossy`. Claimed: the result is the named lossy
/// decoding of `bytes`, and for valid UTF-8 it is the plain decoding (std's
/// documentation: valid input is returned unchanged). How invalid sequences
/// are replaced is left unsaid.
#[verifier::external_body]
fn utf8_lossy_string(bytes: &[u8]) -> (s: String)
    ensures
        s@ == utf8_lossy(bytes@),
        valid_utf8(bytes@) ==> s@ == decode_utf8(bytes@),
{
    String::from_utf8_lossy(bytes).into_owned()
}

/// One clipboard item: a MIME type and the raw bytes.
#[derive(Debug, Clone, PartialEq, Eq)]
pub struct Clip {
    pub mime: String,
    pub data: Vec<u8>,
}

/// The bytes that a clip's fingerprint hashes: the MIME type in UTF-8, a zero
/// byte, then the data.
pub open spec fn fingerprint_input(mime: Seq<char>, data: Seq<u8>) -> Seq<u8> {
    encode_utf8(mime) + seq![0u8] + data
}

/// The fingerprint of a clip with this MIME type and data.
pub open spec fn clip_fingerprint(mime: Seq<char>, data: Seq<u8>) -> Seq<u8> {
    sha256_of(fingerprint_input(mime, data))
}

/// The short human description of a text clip whose lossy decoding is `s`:
/// its first 40 characters with line breaks shown as '⏎', quoted, and an
/// ellipsis when the text is longer.
pub open spec fn describe_text(s: Seq<char>) -> Seq<char> {
    let n: int = if s.len() < 40 { s.len() as int } else { 40 };
    let short = s.take(n).map_values(|c: char| if c == '\n' { '\u{23ce}' } else { c });
    "text \""@ + short + if s.len() > 40 { "\u{2026}\""@ } else { "\""@ }
}

/// The description of a clip, as the daemon logs it.
pub open spec fn describe_clip(mime: Seq<char>, data: Seq<u8>) -> Seq<char> {
    if mime == MIME_TEXT@ {
        describe_text(utf8_lossy(data))
    } else {
        mime + " ("@ + decimal(data.len()) + " bytes)"@
    }
}

/// Appends `src` to `out`.
pub fn append_bytes(out: &mut Vec<u8>, src: &[u8])
    ensures
        final(out)@ == old(out)@ + src@,
{
    let mut i: usize = 0;
    while i < src.len()
        invariant
            i <= src@.len(),
            out@ == old(out)@ + src@.take(i as int),
        decreases src@.len() - i,
    {
        out.push(src[i]);
        i = i + 1;
        assert(src@.take(i as int) =~= src@.take(i - 1).push(src@[i - 1]));
    }
    assert(src@.take(src@.len() as int) =~= src@);
}

impl Clip {
    /// A text clip.
    pub fn text(data: Vec<u8>) -> (c: Self)
        ensures
            c.mime@ == MIME_TEXT@,
            c.data@ == data@,
    {
        Clip { mime: String::from_str(MIME_TEXT), data }
    }

    /// A PNG image clip.
    pub fn png(data: Vec<u8>) -> (c: Self)
        ensures
            c.mime@ == MIME_PNG@,
            c.data@ == data@,
    {
        Clip { mime: String::from_str(MIME_PNG), data }
    }

    /// SHA-256 over the MIME type, a zero byte and the data.
    pub fn fingerprint(&self) -> (fp: [u8; 32])
        ensures
            fp@ == clip_fingerprint(self.mime@, self.data@),
    {
        let mut bytes = self.mime.as_str().as_bytes_vec();
        bytes.push(0u8);
        append_bytes(&mut bytes, self.data.as_slice());
        assert(bytes@ =~= fingerprint_input(self.mime@, self.data@));
        sha256(bytes.as_slice())
    }

    /// A one-line description for the log: a quoted preview of text, or the
    /// MIME type and size of anything else.
    pub fn describe(&self) -> (d: String)
        ensures
            d@ == describe_clip(self.mime@, self.data@),
            self.mime@ == MIME_TEXT@ && valid_utf8(self.data@) ==> d@ == describe_text(
                decode_utf8(self.data@),
            ),
    {
        if str_equal(self.mime.as_str(), MIME_TEXT) {
            let s = utf8_lossy_string(self.data.as_slice());
            let chars = chars_of(s.as_str());
            let mut out = chars_of("text \"");
            let n: usize = if chars.len() < 40 { chars.len() } else { 40 };
            let ghost start = out@;
            let mut i: usize = 0;
            while i < n
                invariant
                    n <= chars@.len(),
                    i <= n,
                    out@ == start + chars@.take(i as int).map_values(
                        |c: char| if c == '\n' { '\u{23ce}' } else { c },
                    ),
                decreases n - i,
            {
                let c = chars[i];
                out.push(if c == '\n' { '\u{23ce}' } else { c });
                i = i + 1;
                assert(chars@.take(i as int).map_values(
                    |c: char| if c == '\n' { '\u{23ce}' } else { c },
                ) =~= chars@.take(i - 1).map_values(
                    |c: char| if c == '\n' { '\u{23ce}' } else { c },
                ).push(if c == '\n' { '\u{23ce}' } else { c }));
            }
            let tail = if chars.len() > 40 { chars_of("\u{2026}\"") } else { chars_of("\"") };
            push_vec(&mut out, &tail);
            assert(out@ =~= describe_text(s@));
            string_of(&out)
        } else {
            let mut out = chars_of(self.mime.as_str());
            let open = chars_of(" (");
            let close = chars_of(" bytes)");
            let ghost m = out@;
            push_vec(&mut out, &open);
            push_decimal(&mut out, self.data.len() as u64);
            push_vec(&mut out, &close);
            assert(out@ =~= describe_clip(self.mime@, self.data@));
            string_of(&out)
        }
    }
}

/// Appends the characters of `src` to `out`.
pub fn push_vec(out: &mut Vec<char>, src: &Vec<char>)
    ensures
        final(out)@ == old(out)@ + src@,
{
    let mut i: usize = 0;
    while i < src.len()
        invariant
            i <= src@.len(),
            out@ == old(out)@ + src@.take(i as int),
        decreases src@.len() - i,
    {
        out.push(src[i]);
        i = i + 1;
        assert(src@.take(i as int) =~= src@.take(i - 1).push(src@[i - 1]));
    }
    assert(src@.take(src@.len() as int) =~= src@);
}

/// What the echo guard remembers after seeing a clip with fingerprint `fp`,
/// and whether that clip counted as new: a clip is new exactly when its
/// fingerprint differs from the last one recorded.
pub open spec fn echo_step(last: Option<Seq<u8>>, fp: Seq<u8>) -> (bool, Option<Seq<u8>>) {
    if last == Some(fp) {
        (false, last)
    } else {
        (true, Some(fp))
    }
}

/// Remembers the fingerprint of the last clip applied or observed locally, so
/// that a change that came from the peer is not echoed back to it.
pub struct Echo {
    last: Option<[u8; 32]>,
}

fn same_digest(a: &[u8; 32], b: &[u8; 32]) -> (r: bool)
    ensures
        r == (a@ == b@),
{
    let mut i: usize = 0;
    while i < 32
        invariant
            i <= 32,
            a@.len() == 32,
            b@.len() == 32,
            forall|t: int| 0 <= t < i ==> a@[t] == b@[t],
        decreases 32 - i,
    {
        if a[i] != b[i] {
            return false;
        }
        i = i + 1;
    }
    assert(a@ =~= b@);
    true
}

impl Echo {
    /// The fingerprint recorded last, if any.
    pub closed spec fn last_seen(&self) -> Option<Seq<u8>> {
        match self.last {
            Some(d) => Some(d@),
            None => None,
        }
    }

    /// Returns true if `clip` is new, and records it.
    pub fn note(&mut self, clip: &Clip) -> (fresh: bool)
        ensures
            (fresh, final(self).last_seen()) == echo_step(
                old(self).last_seen(),
                clip_fingerprint(clip.mime@, clip.data@),
            ),
    {
        let fp = clip.fingerprint();
        let seen = match &self.last {
            Some(l) => same_digest(l, &fp),
            None => false,
        };
        if seen {
            return false;
        }
        self.last = Some(fp);
        true
    }
}

impl Default for Echo {
    fn default() -> (e: Self)
        ensures
            e.last_seen() == None::<Seq<u8>>,
    {
        Echo { last: None }
    }
}

/// A clip that was just noted is not new when it is noted again: the second
/// of two notes of the same fingerprint always reports `false`, whatever was
/// recorded before.
pub proof fn lemma_repeat_is_suppressed(last: Option<Seq<u8>>, fp: Seq<u8>)
    ensures
        echo_step(echo_step(last, fp).1, fp).0 == false,
        echo_step(last, fp).1 == Some(fp),
{
}

/// After noting any clip, the guard holds that clip's fingerprint, and a clip
/// with a different fingerprint is new.
pub proof fn lemma_different_clip_is_new(last: Option<Seq<u8>>, fp: Seq<u8>, other: Seq<u8>)
    requires
        other != fp,
    ensures
        echo_step(echo_step(last, fp).1, other).0 == true,
{
}

/// Clips of the same type hash the same input only when their data is the
/// same, byte for byte and in full: every byte of the data is part of the
/// fingerprint input.
pub proof fn lemma_fingerprint_input_covers_data(mime: Seq<char>, d1: Seq<u8>, d2: Seq<u8>)
    requires
        fingerprint_input(mime, d1) == fingerprint_input(mime, d2),
    ensures
        d1 == d2,
{
    let n = encode_utf8(mime).len() + 1;
    assert(fingerprint_input(mime, d1).subrange(n as int, fingerprint_input(mime, d1).len() as int) =~= d1);
    assert(fingerprint_input(mime, d2).subrange(n as int, fingerprint_input(mime, d2).len() as int) =~= d2);
}

proof fn lemma_scalar_bytes_nonzero(v: u32)
    requires
        v != 0,
        is_scalar(v),
    ensures
        forall|i: int| 0 <= i < encode_scalar(v).len() ==> #[trigger] encode_scalar(v)[i] != 0,
{
    assert(v != 0 && v <= 0x7f ==> ((v & 0x7f) as u8) != 0) by (bit_vector);
    assert((0xC0u8 | (((v >> 6) & 0x1F) as u8)) != 0) by (bit_vector);
    assert((0xE0u8 | (((v >> 12) & 0x0F) as u8)) != 0) by (bit_vector);
    assert((0xF0u8 | (((v >> 18) & 0x7) as u8)) != 0) by (bit_vector);
    assert((0x80u8 | ((v & 0x3F) as u8)) != 0) by (bit_vector);
    assert((0x80u8 | (((v >> 6) & 0x3F) as u8)) != 0) by (bit_vector);
    assert((0x80u8 | (((v >> 12) & 0x3F) as u8)) != 0) by (bit_vector);
}

proof fn lemma_utf8_without_nul_has_no_zero(m: Seq<char>)
    requires
        !m.contains('\0'),
    ensures
        forall|i: int| 0 <= i < encode_utf8(m).len() ==> #[trigger] encode_utf8(m)[i] != 0,
    decreases m.len(),
{
    if m.len() > 0 {
        let c = m[0];
        assert(c != '\0');
        char_is_scalar(c);
        if c as u32 == 0 {
            char_u32_cast(c, 0u32);
            assert(false);
        }
        lemma_scalar_bytes_nonzero(c as u32);
        assert(!m.drop_first().contains('\0')) by {
            if m.drop_first().contains('\0') {
                let k = choose|k: int| 0 <= k < m.drop_first().len() && m.drop_first()[k] == '\0';
                assert(m[k + 1] == '\0');
            }
        }
        lemma_utf8_without_nul_has_no_zero(m.drop_first());
        let head = encode_scalar(c as u32);
        let tail = encode_utf8(m.drop_first());
        assert(encode_utf8(m) == head + tail);
        assert forall|i: int| 0 <= i < encode_utf8(m).len() implies #[trigger] encode_utf8(m)[i] != 0 by {
            if i < head.len() {
                assert(encode_utf8(m)[i] == head[i]);
            } else {
                assert(encode_utf8(m)[i] == tail[i - head.len()]);
            }
        }
    }
}

/// Two clips hash the same fingerprint input only when they have the same type
/// and the same data (types are taken without a NUL character, as MIME types
/// are): the input is the type's UTF-8, a zero byte that no other character
/// encodes to, and all of the data.
pub proof fn lemma_fingerprint_input_injective(m1: Seq<char>, d1: Seq<u8>, m2: Seq<char>, d2: Seq<u8>)
    requires
        !m1.contains('\0'),
        !m2.contains('\0'),
        fingerprint_input(m1, d1) == fingerprint_input(m2, d2),
    ensures
        m1 == m2,
        d1 == d2,
{
    let e1 = encode_utf8(m1);
    let e2 = encode_utf8(m2);
    let f = fingerprint_input(m1, d1);
    lemma_utf8_without_nul_has_no_zero(m1);
    lemma_utf8_without_nul_has_no_zero(m2);
    assert(f[e1.len() as int] == 0);
    assert(fingerprint_input(m2, d2)[e2.len() as int] == 0);
    if e1.len() < e2.len() {
        assert(f[e1.len() as int] == e2[e1.len() as int]);
        assert(false);
    }
    if e2.len() < e1.len() {
        assert(f[e2.len() as int] == e1[e2.len() as int]);
        assert(false);
    }
    assert(e1 =~= f.subrange(0, e1.len() as int));
    assert(e2 =~= fingerprint_input(m2, d2).subrange(0, e2.len() as int));
    encode_utf8_decode_utf8(m1);
    encode_utf8_decode_utf8(m2);
    lemma_fingerprint_input_covers_data(m1, d1, d2);
}

/// A decoded image: width, height and 8-bit RGBA pixels, row by row.
pub struct Rgba {
    pub width: u32,
    pub height: u32,
    pub bytes: Vec<u8>,
}

/// `png::EncodingError`, carried through opaque.
#[verifier::external_type_specification]
#[verifier::external_body]
pub struct ExEncodingError(png::EncodingError);

/// `png::DecodingError`, carried through opaque.
#[verifier::external_type_specification]
#[verifier::external_body]
pub struct ExDecodingError(png::DecodingError);

/// The pixel layout of a decoded PNG, after expansion to 8 bits per sample
/// with alpha.
#[derive(Debug, PartialEq, Eq)]
pub enum DecodedLayout {
    Rgba,
    GrayscaleAlpha,
    Other,
}

/// A PNG as the decoder hands it over: size, layout, the name of the layout
/// (for messages) and the samples.
pub struct DecodedPng {
    pub width: u32,
    pub height: u32,
    pub layout: DecodedLayout,
    pub layout_name: String,
    pub bytes: Vec<u8>,
}

/// What the `png` encoder writes for an 8-bit RGBA image of this size and
/// these pixels; `None` where it reports an error.
pub uninterp spec fn png_rgba8_of(width: u32, height: u32, pixels: Seq<u8>) -> Option<Seq<u8>>;

/// What the `png` decoder, set to expand to 8-bit samples with alpha, gives
/// for these bytes: width, height, layout and samples; `None` where it
/// reports an error.
pub uninterp spec fn png_decoded_of(data: Seq<u8>) -> Option<(u32, u32, DecodedLayout, Seq<u8>)>;

/// Calls the `png` encoder (`Encoder::new`, RGBA colour, 8-bit depth,
/// `write_header`, `write_image_data`, `finish`) into a fresh buffer. The
/// contract names the outcome only; which images it rejects is not stated.
/// The pixel count must match the size: `write_image_data` multiplies the row
/// length by the height in `usize`, which can overflow for a mismatched buffer.
#[verifier::external_body]
fn png_encode_rgba8(width: u32, height: u32, pixels: &[u8]) -> (r: Result<Vec<u8>, png::EncodingError>)
    requires
        pixels@.len() == 4 * width * height,
    ensures
        r matches Ok(v) ==> png_rgba8_of(width, height, pixels@) == Some(v@),
        r is Err <==> png_rgba8_of(width, height, pixels@) is None,
{
    let mut out = Vec::new();
    {
        let mut enc = png::Encoder::new(&mut out, width, height);
        enc.set_color(png::ColorType::Rgba);
        enc.set_depth(png::BitDepth::Eight);
        let mut w = enc.write_header()?;
        w.write_image_data(pixels)?;
        w.finish()?;
    }
    Ok(out)
}

/// Calls the `png` decoder (`Decoder::new` over the bytes,
/// `normalize_to_color8` and `ALPHA` transformations, `read_info`,
/// `next_frame`, the buffer cut to `buffer_size`). Claimed beyond the name:
/// with 8-bit output a grey-and-alpha pixel takes two bytes, so its samples
/// come in pairs (png 0.18: `line_size` is `width * samples` at depth eight).
#[verifier::external_body]
fn png_decode_rgba8(data: &[u8]) -> (r: Result<DecodedPng, png::DecodingError>)
    ensures
        r matches Ok(img) ==> png_decoded_of(data@) == Some((img.width, img.height, img.layout, img.bytes@)),
        r is Err <==> png_decoded_of(data@) is None,
        r matches Ok(img) ==> (img.layout == DecodedLayout::GrayscaleAlpha ==> img.bytes@.len() % 2 == 0),
{
    let mut dec = png::Decoder::new(std::io::Cursor::new(data));
    dec.set_transformations(png::Transformations::normalize_to_color8() | png::Transformations::ALPHA);
    let mut reader = dec.read_info()?;
    let mut buf = vec![0u8; reader.output_buffer_size().unwrap_or(0)];
    let info = reader.next_frame(&mut buf)?;
    buf.truncate(info.buffer_size());
    let layout = match info.color_type {
        png::ColorType::Rgba => DecodedLayout::Rgba,
        png::ColorType::GrayscaleAlpha => DecodedLayout::GrayscaleAlpha,
        _ => DecodedLayout::Other,
    };
    Ok(DecodedPng { width: info.width, height: info.height, layout, layout_name: format!("{:?}", info.color_type), bytes: buf })
}

/// Why an image could not be converted.
#[derive(Debug)]
pub enum PngError {
    Encoding(png::EncodingError),
    Decoding(png::DecodingError),
    /// The pixel buffer does not hold `4 * width * height` bytes: the size it
    /// should have and the size it has.
    BufferSize { expected: u128, actual: usize },
    /// The decoder produced a layout other than RGBA or grey with alpha; the
    /// layout's name.
    UnexpectedColor(String),
}

/// Grey-and-alpha samples spread to RGBA: each pair (grey, alpha) becomes
/// (grey, grey, grey, alpha).
pub open spec fn gray_alpha_to_rgba(b: Seq<u8>) -> Seq<u8> {
    Seq::new(
        2 * b.len(),
        |i: int| if i % 4 < 3 { b[2 * (i / 4)] } else { b[2 * (i / 4) + 1] },
    )
}

/// Spreads grey-and-alpha samples to RGBA (see [`gray_alpha_to_rgba`]).
pub fn expand_gray_alpha(b: &Vec<u8>) -> (out: Vec<u8>)
    requires
        b@.len() % 2 == 0,
    ensures
        out@ == gray_alpha_to_rgba(b@),
{
    let mut out: Vec<u8> = Vec::new();
    let mut p: usize = 0;
    while p + 1 < b.len()
        invariant
            b@.len() % 2 == 0,
            p % 2 == 0,
            p <= b@.len(),
            out@ == gray_alpha_to_rgba(b@).take(2 * p),
        decreases b@.len() - p,
    {
        let g = b[p];
        let a = b[p + 1];
        out.push(g);
        out.push(g);
        out.push(g);
        out.push(a);
        p = p + 2;
        assert(out@ =~= gray_alpha_to_rgba(b@).take(2 * p));
    }
    assert(gray_alpha_to_rgba(b@).take(2 * p) =~= gray_alpha_to_rgba(b@));
    out
}

/// Encodes 8-bit RGBA pixels as PNG. A buffer whose length is not
/// `4 * width * height` is refused before the encoder sees it.
pub fn rgba_to_png(img: &Rgba) -> (r: Result<Vec<u8>, PngError>)
    ensures
        img.bytes@.len() != 4 * img.width * img.height ==> (r matches Err(
            PngError::BufferSize { expected, actual },
        ) && expected == 4 * img.width * img.height && actual == img.bytes@.len()),
        img.bytes@.len() == 4 * img.width * img.height ==> match png_rgba8_of(
            img.width,
            img.height,
            img.bytes@,
        ) {
            Some(v) => r matches Ok(out) && out@ == v,
            None => r matches Err(PngError::Encoding(_)),
        },
{
    let w = img.width as u128;
    let h = img.height as u128;
    assert(w * h <= 0xffff_ffff_u128 * 0xffff_ffff_u128) by (nonlinear_arith)
        requires
            w <= 0xffff_ffff_u128,
            h <= 0xffff_ffff_u128,
    ;
    let expected: u128 = 4 * (w * h);
    assert(expected == 4 * img.width * img.height) by (nonlinear_arith)
        requires
            w == img.width,
            h == img.height,
            expected == 4 * (w * h),
    ;
    let actual = img.bytes.len();
    if expected != actual as u128 {
        return Err(PngError::BufferSize { expected, actual });
    }
    match png_encode_rgba8(img.width, img.height, img.bytes.as_slice()) {
        Ok(v) => Ok(v),
        Err(e) => Err(PngError::Encoding(e)),
    }
}

/// Decodes a PNG to 8-bit RGBA: RGBA output is taken as is, grey with alpha is
/// spread to RGBA, and any other layout is an error.
pub fn png_to_rgba(data: &[u8]) -> (r: Result<Rgba, PngError>)
    ensures
        match png_decoded_of(data@) {
            None => r matches Err(PngError::Decoding(_)),
            Some((w, h, layout, bytes)) => match layout {
                DecodedLayout::Rgba => r matches Ok(img) && img.width == w && img.height == h
                    && img.bytes@ == bytes,
                DecodedLayout::GrayscaleAlpha => r matches Ok(img) && img.width == w && img.height
                    == h && img.bytes@ == gray_alpha_to_rgba(bytes),
                DecodedLayout::Other => r matches Err(PngError::UnexpectedColor(_)),
            },
        },
{
    let img = match png_decode_rgba8(data) {
        Ok(i) => i,
        Err(e) => {
            return Err(PngError::Decoding(e));
        },
    };
    match img.layout {
        DecodedLayout::Rgba => Ok(Rgba { width: img.width, height: img.height, bytes: img.bytes }),
        DecodedLayout::GrayscaleAlpha => {
            let bytes = expand_gray_alpha(&img.bytes);
            Ok(Rgba { width: img.width, height: img.height, bytes })
        },
        DecodedLayout::Other => Err(PngError::UnexpectedColor(img.layout_name)),
    }
}

} // verus!
