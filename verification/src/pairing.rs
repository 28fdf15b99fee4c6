//! Host-side approval of a pairing request: how the request is put to the
//! person at the host, and how their answer is read.

use vstd::prelude::*;

use crate::clip::push_vec;
use crate::text::{chars_of, chars_equal, contains_seq, str_contains, string_of, trim, trimmed};

verus! {

/// How to ask the person at the host.
#[derive(Debug, PartialEq, Eq)]
pub enum Ask {
    /// Accept without asking.
    AutoAccept,
    /// Show a native dialog (macOS).
    Dialog,
    /// Ask on the terminal.
    Prompt,
    /// There is no way to ask: deny.
    Deny,
}

/// The way to ask: auto-accept when configured, else a dialog on macOS, else
/// a terminal prompt when stdin is a terminal, else deny.
pub fn how_to_ask(auto_accept: bool, on_macos: bool, stdin_is_terminal: bool) -> (a: Ask)
    ensures
        a == (if auto_accept {
            Ask::AutoAccept
        } else if on_macos {
            Ask::Dialog
        } else if stdin_is_terminal {
            Ask::Prompt
        } else {
            Ask::Deny
        }),
{
    if auto_accept {
        Ask::AutoAccept
    } else if on_macos {
        Ask::Dialog
    } else if stdin_is_terminal {
        Ask::Prompt
    } else {
        Ask::Deny
    }
}

/// The AppleScript that shows the pairing dialog.
pub open spec fn dialog_script_text(guest_name: Seq<char>, addr: Seq<char>, code: Seq<char>) -> Seq<char> {
    "display dialog \""@ + guest_name + " ("@ + addr
        + ") wants to share your clipboard.\\n\\nPairing code: "@ + code
        + "\\n\\nThe VM shows the same code. Allow?\" with title \"Clipboard Bridge\" buttons {\"Deny\", \"Allow\"} default button \"Allow\" cancel button \"Deny\" with icon caution giving up after 90"@
}

/// The AppleScript that asks whether `guest_name` at `addr` may pair, showing
/// the pairing code; it gives up after 90 seconds.
pub fn dialog_script(guest_name: &str, addr: &str, code: &str) -> (s: String)
    ensures
        s@ == dialog_script_text(guest_name@, addr@, code@),
{
    let mut out = chars_of("display dialog \"");
    push_vec(&mut out, &chars_of(guest_name));
    push_vec(&mut out, &chars_of(" ("));
    push_vec(&mut out, &chars_of(addr));
    push_vec(&mut out, &chars_of(") wants to share your clipboard.\\n\\nPairing code: "));
    push_vec(&mut out, &chars_of(code));
    push_vec(
        &mut out,
        &chars_of(
            "\\n\\nThe VM shows the same code. Allow?\" with title \"Clipboard Bridge\" buttons {\"Deny\", \"Allow\"} default button \"Allow\" cancel button \"Deny\" with icon caution giving up after 90",
        ),
    );
    string_of(&out)
}

/// Whether the dialog's output says that the person clicked Allow in time.
pub fn dialog_allowed(output: &str) -> (ok: bool)
    ensures
        ok == (contains_seq(output@, "button returned:Allow"@) && !contains_seq(
            output@,
            "gave up:true"@,
        )),
{
    str_contains(output, "button returned:Allow") && !str_contains(output, "gave up:true")
}

/// Whether a line typed at the prompt is a yes: `y`, `Y` or `yes`, ignoring
/// surrounding whitespace.
pub fn answer_is_yes(line: &str) -> (yes: bool)
    ensures
        yes == (trim(line@) == "y"@ || trim(line@) == "Y"@ || trim(line@) == "yes"@),
{
    let t = trimmed(&chars_of(line));
    chars_equal(&t, &chars_of("y")) || chars_equal(&t, &chars_of("Y")) || chars_equal(
        &t,
        &chars_of("yes"),
    )
}

} // verus!
