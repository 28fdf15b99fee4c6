//! Choices of the platform clipboard backends: whether the file-backed test
//! clipboard is in use, which offered type to read on Wayland, and which type
//! to announce when setting it.

use vstd::prelude::*;

use crate::clip::{append_bytes, Clip, MIME_PNG, MIME_TEXT};
use crate::text::{chars_of, is_space, lemma_trim_bare, str_equal, string_of, trim, trimmed};

verus! {

/// The path of the file-backed clipboard, when the variable that selects it
/// is set to something non-empty.
pub fn fake_clipboard_path(var: Option<String>) -> (path: Option<String>)
    ensures
        match var {
            Some(s) => if s@.len() > 0 { path == Some(s) } else { path is None },
            None => path is None,
        },
{
    match var {
        Some(s) => {
            if s.as_str().is_empty() {
                None
            } else {
                Some(s)
            }
        },
        None => None,
    }
}

/// The text types a Wayland selection may be read as, most preferred first.
pub open spec fn text_mimes() -> Seq<Seq<char>> {
    seq![
        "text/plain;charset=utf-8"@,
        "UTF8_STRING"@,
        "text/plain"@,
        "TEXT"@,
        "STRING"@,
    ]
}

fn text_mime(i: usize) -> (m: &'static str)
    requires
        i < 5,
    ensures
        m@ == text_mimes()[i as int],
{
    if i == 0 {
        "text/plain;charset=utf-8"
    } else if i == 1 {
        "UTF8_STRING"
    } else if i == 2 {
        "text/plain"
    } else if i == 3 {
        "TEXT"
    } else {
        "STRING"
    }
}

/// The first of the text types, from position `k` on, that is offered.
pub open spec fn first_text_offer(offered: Seq<Seq<char>>, k: int) -> Option<Seq<char>>
    decreases 5 - k,
{
    if k >= 5 || k < 0 {
        None
    } else if offered.contains(text_mimes()[k]) {
        Some(text_mimes()[k])
    } else {
        first_text_offer(offered, k + 1)
    }
}

/// The type to read a selection as: PNG if it is offered, else the most
/// preferred offered text type; with whether it is an image.
pub open spec fn offer_choice(offered: Seq<Seq<char>>) -> Option<(Seq<char>, bool)> {
    if offered.contains(MIME_PNG@) {
        Some((MIME_PNG@, true))
    } else {
        match first_text_offer(offered, 0) {
            Some(t) => Some((t, false)),
            None => None,
        }
    }
}

/// The type a selection is read as: PNG whenever it is offered; else the first
/// offered of, in this order, `text/plain;charset=utf-8`, `UTF8_STRING`,
/// `text/plain`, `TEXT`, `STRING`; else nothing.
pub proof fn lemma_offer_preference(o: Seq<Seq<char>>)
    ensures
        o.contains("image/png"@) ==> offer_choice(o) == Some(("image/png"@, true)),
        !o.contains("image/png"@) && o.contains("text/plain;charset=utf-8"@) ==> offer_choice(o)
            == Some(("text/plain;charset=utf-8"@, false)),
        !o.contains("image/png"@) && !o.contains("text/plain;charset=utf-8"@) && o.contains(
            "UTF8_STRING"@,
        ) ==> offer_choice(o) == Some(("UTF8_STRING"@, false)),
        !o.contains("image/png"@) && !o.contains("text/plain;charset=utf-8"@) && !o.contains(
            "UTF8_STRING"@,
        ) && o.contains("text/plain"@) ==> offer_choice(o) == Some(("text/plain"@, false)),
        !o.contains("image/png"@) && !o.contains("text/plain;charset=utf-8"@) && !o.contains(
            "UTF8_STRING"@,
        ) && !o.contains("text/plain"@) && o.contains("TEXT"@) ==> offer_choice(o) == Some(
            ("TEXT"@, false),
        ),
        !o.contains("image/png"@) && !o.contains("text/plain;charset=utf-8"@) && !o.contains(
            "UTF8_STRING"@,
        ) && !o.contains("text/plain"@) && !o.contains("TEXT"@) && o.contains("STRING"@)
            ==> offer_choice(o) == Some(("STRING"@, false)),
        !o.contains("image/png"@) && !o.contains("text/plain;charset=utf-8"@) && !o.contains(
            "UTF8_STRING"@,
        ) && !o.contains("text/plain"@) && !o.contains("TEXT"@) && !o.contains("STRING"@)
            ==> offer_choice(o) is None,
{
    reveal_with_fuel(first_text_offer, 6);
}

fn offers(offered: &Vec<String>, m: &str) -> (b: bool)
    ensures
        b == offered@.map_values(|s: String| s@).contains(m@),
{
    let ghost views = offered@.map_values(|s: String| s@);
    let mut i: usize = 0;
    while i < offered.len()
        invariant
            i <= offered@.len(),
            views == offered@.map_values(|s: String| s@),
            forall|j: int| 0 <= j < i ==> views[j] != m@,
        decreases offered@.len() - i,
    {
        if str_equal(offered[i].as_str(), m) {
            assert(views[i as int] == m@);
            return true;
        }
        i = i + 1;
    }
    false
}

/// Picks the type to read an offered selection as (see [`offer_choice`]).
pub fn choose_offer(offered: &Vec<String>) -> (c: Option<(&'static str, bool)>)
    ensures
        match c {
            Some((m, png)) => offer_choice(offered@.map_values(|s: String| s@)) == Some((m@, png)),
            None => offer_choice(offered@.map_values(|s: String| s@)) is None,
        },
{
    let ghost views = offered@.map_values(|s: String| s@);
    if offers(offered, MIME_PNG) {
        return Some((MIME_PNG, true));
    }
    let mut k: usize = 0;
    while k < 5
        invariant
            k <= 5,
            views == offered@.map_values(|s: String| s@),
            !views.contains(MIME_PNG@),
            first_text_offer(views, 0) == first_text_offer(views, k as int),
        decreases 5 - k,
    {
        let m = text_mime(k);
        if offers(offered, m) {
            return Some((m, false));
        }
        k = k + 1;
    }
    None
}

/// The type that `wl-copy` is told when setting the clipboard: PNG for an
/// image, UTF-8 text for anything else.
pub fn wl_copy_type(mime: &str) -> (t: &'static str)
    ensures
        t@ == (if mime@ == MIME_PNG@ { MIME_PNG@ } else { "text/plain;charset=utf-8"@ }),
{
    if str_equal(mime, MIME_PNG) {
        MIME_PNG
    } else {
        "text/plain;charset=utf-8"
    }
}

/// Whether a clip of this type is set on the macOS pasteboard as an image.
pub fn is_png(mime: &str) -> (b: bool)
    ensures
        b == (mime@ == MIME_PNG@),
{
    str_equal(mime, MIME_PNG)
}

/// Whether a clip of this type is text.
pub fn is_text(mime: &str) -> (b: bool)
    ensures
        b == (mime@ == MIME_TEXT@),
{
    str_equal(mime, MIME_TEXT)
}

/// The clip that the file-backed clipboard holds: nothing when the file is
/// empty; otherwise its bytes, typed by the trimmed contents of the sibling
/// type file, or as text when there is none.
pub fn fake_clip(data: Vec<u8>, mime_file: Option<String>) -> (c: Option<Clip>)
    ensures
        data@.len() == 0 ==> c is None,
        data@.len() > 0 ==> (c matches Some(clip) && clip.data@ == data@ && clip.mime@ == match mime_file {
            Some(m) => trim(m@),
            None => MIME_TEXT@,
        }),
{
    if data.len() == 0 {
        return None;
    }
    let mime = match mime_file {
        Some(m) => string_of(&trimmed(&chars_of(m.as_str()))),
        None => String::from_str(MIME_TEXT),
    };
    Some(Clip { mime, data })
}

/// Whether two readings of the file-backed clipboard hold the same thing:
/// both empty, or clips of the same type and data.
pub open spec fn same_reading(a: Option<Clip>, b: Option<Clip>) -> bool {
    match (a, b) {
        (None, None) => true,
        (Some(x), Some(y)) => x.mime@ == y.mime@ && x.data@ == y.data@,
        _ => false,
    }
}

fn same_bytes(a: &Vec<u8>, b: &Vec<u8>) -> (r: bool)
    ensures
        r == (a@ == b@),
{
    if a.len() != b.len() {
        return false;
    }
    let mut i: usize = 0;
    while i < a.len()
        invariant
            a@.len() == b@.len(),
            i <= a@.len(),
            forall|t: int| 0 <= t < i ==> a@[t] == b@[t],
        decreases a@.len() - i,
    {
        if a[i] != b[i] {
            return false;
        }
        i = i + 1;
    }
    assert(a@ =~= b@);
    true
}

fn copy_clip(c: &Clip) -> (r: Clip)
    ensures
        r.mime@ == c.mime@,
        r.data@ == c.data@,
{
    let mut data: Vec<u8> = Vec::new();
    append_bytes(&mut data, c.data.as_slice());
    Clip { mime: String::from_str(c.mime.as_str()), data }
}

/// One poll of the file-backed clipboard: when the reading differs from the
/// last one, it becomes the last one and, if it holds a clip, that clip is
/// announced; an unchanged reading announces nothing.
pub fn fake_poll(last: &mut Option<Clip>, now: Option<Clip>) -> (sent: Option<Clip>)
    ensures
        same_reading(*old(last), now) ==> sent is None && *final(last) == *old(last),
        !same_reading(*old(last), now) ==> same_reading(*final(last), now) && same_reading(sent, now),
{
    let same = match (&*last, &now) {
        (None, None) => true,
        (Some(x), Some(y)) => str_equal(x.mime.as_str(), y.mime.as_str()) && same_bytes(&x.data, &y.data),
        _ => false,
    };
    if same {
        return None;
    }
    match now {
        Some(c) => {
            *last = Some(copy_clip(&c));
            Some(c)
        },
        None => {
            *last = None;
            None
        },
    }
}

/// The file-backed clipboard gives back what was set: a clip with data and a
/// type without surrounding whitespace is read as the same clip (see
/// [`fake_clip`], which keeps the data and trims the type).
pub proof fn lemma_fake_clip_reads_back(mime: Seq<char>)
    requires
        mime.len() > 0 ==> !is_space(mime[0]) && !is_space(mime.last()),
    ensures
        trim(mime) == mime,
{
    lemma_trim_bare(mime);
}

} // verus!
