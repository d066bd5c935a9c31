//! The colours of the notices that the relay writes, by way of `crossterm`.

use crossterm::style::{Colorize, Styler};
use std::fmt::Write;
use vstd::prelude::*;

verus! {

/// `text` between the escape sequences for bright green and bold and the one
/// that resets.
pub open spec fn green_bold(text: Seq<char>) -> Seq<char> {
    "\x1B[38;5;10m\x1B[1m"@ + text + "\x1B[0m"@
}

/// `text` between the escape sequences for bright red and bold and the one that
/// resets.
pub open spec fn red_bold(text: Seq<char>) -> Seq<char> {
    "\x1B[38;5;9m\x1B[1m"@ + text + "\x1B[0m"@
}

/// `out` is `text` as a terminal is to show it: in `styled`, or bare where the
/// console takes no escape sequences.
pub open spec fn rendering(out: Seq<char>, text: Seq<char>, styled: Seq<char>) -> bool {
    out == styled || out == text
}

/// `Colorize::green`, `Styler::bold` and the `Display` of the styled text that
/// they make. `crossterm` writes the sequence for the colour, the one for bold,
/// the text and the reset; on a Windows console without support for escape
/// sequences it sets the colour on the console itself and writes the text
/// alone. Where it cannot reach the console and reports an error, the text
/// comes back bare.
#[verifier::external_body]
pub(crate) fn bold_green(text: &str) -> (out: String)
    ensures
        rendering(out@, text@, green_bold(text@)),
{
    let mut out = String::new();
    match write!(out, "{}", text.green().bold()) {
        Ok(()) => out,
        Err(_) => text.to_owned(),
    }
}

/// `Colorize::red`, `Styler::bold` and the `Display` of the styled text that
/// they make. `crossterm` writes the sequence for the colour, the one for bold,
/// the text and the reset; on a Windows console without support for escape
/// sequences it sets the colour on the console itself and writes the text
/// alone. Where it cannot reach the console and reports an error, the text
/// comes back bare.
#[verifier::external_body]
pub(crate) fn bold_red(text: &str) -> (out: String)
    ensures
        rendering(out@, text@, red_bold(text@)),
{
    let mut out = String::new();
    match write!(out, "{}", text.red().bold()) {
        Ok(()) => out,
        Err(_) => text.to_owned(),
    }
}

} // verus!
