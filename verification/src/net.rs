//! Line framing of the wire: what a line read from the socket is.

use vstd::prelude::*;

use crate::clip::push_vec;
use crate::protocol::MAX_FRAME;
use crate::text::{chars_of, decimal, push_decimal, string_of};

verus! {

/// What one `read_until('\n')` gave.
#[derive(Debug, PartialEq, Eq)]
pub enum LineKind {
    /// Nothing was read: the peer closed the connection.
    Eof,
    /// The line is longer than a frame may be.
    TooLong,
    /// A line to parse as a frame (lines that do not parse are skipped, to
    /// tolerate frames of newer peers).
    Candidate,
}

/// Classifies a read of `read` bytes that left a line of `len` bytes.
pub fn classify_line(read: usize, len: usize) -> (k: LineKind)
    ensures
        k == (if read == 0 {
            LineKind::Eof
        } else if len > MAX_FRAME {
            LineKind::TooLong
        } else {
            LineKind::Candidate
        }),
{
    if read == 0 {
        LineKind::Eof
    } else if len > MAX_FRAME {
        LineKind::TooLong
    } else {
        LineKind::Candidate
    }
}

/// The error a line over the frame limit is reported with.
pub fn too_long_message() -> (s: String)
    ensures
        s@ == "frame exceeds "@ + decimal(MAX_FRAME as nat) + " bytes"@,
{
    let mut out = chars_of("frame exceeds ");
    push_decimal(&mut out, MAX_FRAME as u64);
    push_vec(&mut out, &chars_of(" bytes"));
    string_of(&out)
}

} // verus!
