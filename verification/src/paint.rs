//! Highlighting for a terminal.

use vstd::prelude::*;

verus! {

/// A text between the escape sequence that switches a terminal to yellow and
/// the one that resets it.
pub open spec fn yellow(text: Seq<char>) -> Seq<char> {
    "\x1B[33m"@ + text + "\x1B[0m"@
}

/// Calls `ansi_term::Colour::Yellow.paint` on the text and renders what comes
/// back with `to_string`.
///
/// Not proved: that the rendering is the text, unchanged, between the two
/// escape sequences of [`yellow`]. `ansi_term` writes a style's prefix, the
/// string, and the style's suffix; for a style that is a yellow foreground and
/// nothing else these are `ESC [ 3 3 m` and `ESC [ 0 m`.
#[verifier::external_body]
pub(crate) fn paint_yellow(text: &str) -> (painted: String)
    ensures
        painted@ == yellow(text@),
{
    ansi_term::Colour::Yellow.paint(text).to_string()
}

} // verus!
