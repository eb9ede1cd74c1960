//! Terminal emphasis for rendered text, through colored's escapes.

use vstd::prelude::*;

use colored::Colorize;

verus! {

/// The emphasis that a tag puts on its rendered children.
#[derive(Clone, Copy, Debug, PartialEq, Eq, Structural)]
pub enum Emphasis {
    /// Bold.
    Bold,
    /// Bold, underlined, white.
    Heading1,
    /// Bold and underlined.
    Heading2,
    /// Italic.
    Italic,
    /// Black on a yellow background.
    Highlight,
}

/// The escape that resets every attribute.
pub open spec fn sgr_reset() -> Seq<char> {
    "\x1b[0m"@
}

/// The escape that switches an emphasis on.
pub open spec fn sgr_open(e: Emphasis) -> Seq<char> {
    match e {
        Emphasis::Bold => "\x1b[1m"@,
        Emphasis::Heading1 => "\x1b[1;4;37m"@,
        Emphasis::Heading2 => "\x1b[1;4m"@,
        Emphasis::Italic => "\x1b[3m"@,
        Emphasis::Highlight => "\x1b[43;30m"@,
    }
}

/// `s` with `open` written again after every reset it holds, so that an
/// inner reset does not end the outer emphasis.
pub open spec fn rearm(s: Seq<char>, open: Seq<char>) -> Seq<char>
    decreases s.len(),
{
    if s.len() == 0 {
        s
    } else if s.len() >= 4 && s.take(4) == sgr_reset() {
        sgr_reset() + open + rearm(s.skip(4), open)
    } else {
        seq![s[0]] + rearm(s.drop_first(), open)
    }
}

/// `r` is `s` with emphasis `e`: unchanged where the terminal takes no
/// colours, else wrapped in the emphasis escape and a reset.
pub open spec fn emphasised(r: Seq<char>, s: Seq<char>, e: Emphasis) -> bool {
    r == s || r == sgr_open(e) + rearm(s, sgr_open(e)) + sgr_reset()
}

/// Relies on colored's `Colorize::bold` and the `Display` of
/// `ColoredString`: plain text when colours are off (environment, or
/// output not a terminal), else `ESC[1m`, the text with the style repeated
/// after each inner reset, and `ESC[0m`.
#[verifier::external_body]
fn bold(s: &str) -> (r: String)
    ensures
        emphasised(r@, s@, Emphasis::Bold),
{
    s.bold().to_string()
}

/// Relies on colored's `bold`, `underline`, `white` and the `Display` of
/// `ColoredString`: plain text when colours are off, else `ESC[1;4;37m`,
/// the text with the style repeated after each inner reset, and `ESC[0m`.
#[verifier::external_body]
fn heading1(s: &str) -> (r: String)
    ensures
        emphasised(r@, s@, Emphasis::Heading1),
{
    s.bold().underline().white().to_string()
}

/// Relies on colored's `bold`, `underline` and the `Display` of
/// `ColoredString`: plain text when colours are off, else `ESC[1;4m`, the
/// text with the style repeated after each inner reset, and `ESC[0m`.
#[verifier::external_body]
fn heading2(s: &str) -> (r: String)
    ensures
        emphasised(r@, s@, Emphasis::Heading2),
{
    s.bold().underline().to_string()
}

/// Relies on colored's `italic` and the `Display` of `ColoredString`:
/// plain text when colours are off, else `ESC[3m`, the text with the style
/// repeated after each inner reset, and `ESC[0m`.
#[verifier::external_body]
fn italic(s: &str) -> (r: String)
    ensures
        emphasised(r@, s@, Emphasis::Italic),
{
    s.italic().to_string()
}

/// Relies on colored's `black`, `on_yellow` and the `Display` of
/// `ColoredString`: plain text when colours are off, else `ESC[43;30m`
/// (background first), the text with the style repeated after each inner
/// reset, and `ESC[0m`.
#[verifier::external_body]
fn highlight(s: &str) -> (r: String)
    ensures
        emphasised(r@, s@, Emphasis::Highlight),
{
    s.black().on_yellow().to_string()
}

/// Applies an emphasis.
pub fn emphasise(s: &str, e: Emphasis) -> (r: String)
    ensures
        emphasised(r@, s@, e),
{
    match e {
        Emphasis::Bold => bold(s),
        Emphasis::Heading1 => heading1(s),
        Emphasis::Heading2 => heading2(s),
        Emphasis::Italic => italic(s),
        Emphasis::Highlight => highlight(s),
    }
}

} // verus!
