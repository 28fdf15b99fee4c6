//! Small decisions of the daemon: which role this machine plays, and which
//! name it goes by.

use vstd::prelude::*;

use crate::text::{chars_of, str_equal, string_of, trim, trimmed};

verus! {

/// Whether a machine running this OS plays the host: the role follows the OS,
/// and macOS is the host.
pub fn is_host(os: &str) -> (host: bool)
    ensures
        host == (os@ == "macos"@),
{
    str_equal(os, "macos")
}

/// A candidate for this machine's name, trimmed, if anything is left.
pub fn usable_name(raw: &str) -> (name: Option<String>)
    ensures
        match name {
            Some(n) => n@ == trim(raw@) && n@.len() > 0,
            None => trim(raw@).len() == 0,
        },
{
    let t = trimmed(&chars_of(raw));
    if t.len() == 0 {
        None
    } else {
        Some(string_of(&t))
    }
}

/// The name to use when no source gave one.
pub fn unknown_name() -> (name: String)
    ensures
        name@ == "unknown"@,
{
    String::from_str("unknown")
}

} // verus!
