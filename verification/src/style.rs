//! Terminal styling of text.

use owo_colors::OwoColorize;
use vstd::prelude::*;

verus! {

/// A text attribute or a foreground colour.
#[derive(Clone, Copy, Debug, PartialEq, Eq, Structural)]
pub enum Style {
    Bold,
    Dimmed,
    Italic,
    Red,
    Green,
    Yellow,
    Cyan,
    BrightRed,
    BrightGreen,
    BrightMagenta,
    BrightCyan,
    BrightWhite,
}

/// The ANSI escape sequence that sets a style.
pub open spec fn opening(style: Style) -> Seq<char> {
    match style {
        Style::Bold => "\x1b[1m"@,
        Style::Dimmed => "\x1b[2m"@,
        Style::Italic => "\x1b[3m"@,
        Style::Red => "\x1b[31m"@,
        Style::Green => "\x1b[32m"@,
        Style::Yellow => "\x1b[33m"@,
        Style::Cyan => "\x1b[36m"@,
        Style::BrightRed => "\x1b[91m"@,
        Style::BrightGreen => "\x1b[92m"@,
        Style::BrightMagenta => "\x1b[95m"@,
        Style::BrightCyan => "\x1b[96m"@,
        Style::BrightWhite => "\x1b[97m"@,
    }
}

/// The ANSI escape sequence that ends a style: all attributes are reset after
/// an attribute, the foreground colour after a colour.
pub open spec fn closing(style: Style) -> Seq<char> {
    match style {
        Style::Bold | Style::Dimmed | Style::Italic => "\x1b[0m"@,
        _ => "\x1b[39m"@,
    }
}

/// `s` between the sequences that set and end `style`.
pub open spec fn styled(s: Seq<char>, style: Style) -> Seq<char> {
    opening(style) + s + closing(style)
}

/// `s` in `style` where `color` holds, and as it is where it does not.
pub open spec fn painted(s: Seq<char>, color: bool, style: Style) -> Seq<char> {
    if color {
        styled(s, style)
    } else {
        s
    }
}

/// `s` in `inner`, and that in `outer`, where `color` holds, and as it is where
/// it does not.
pub open spec fn painted_twice(s: Seq<char>, color: bool, inner: Style, outer: Style) -> Seq<char> {
    if color {
        styled(styled(s, inner), outer)
    } else {
        s
    }
}

/// `OwoColorize::bold` makes the text bold: displayed, its result is the text between
/// the sequences of `Style::Bold`.
#[verifier::external_body]
fn bold(s: &str) -> (r: String)
    ensures
        r@ == styled(s@, Style::Bold),
{
    s.bold().to_string()
}

/// `OwoColorize::dimmed` dims the text: displayed, its result is the text between
/// the sequences of `Style::Dimmed`.
#[verifier::external_body]
fn dimmed(s: &str) -> (r: String)
    ensures
        r@ == styled(s@, Style::Dimmed),
{
    s.dimmed().to_string()
}

/// `OwoColorize::italic` sets the text in italics: displayed, its result is the text between
/// the sequences of `Style::Italic`.
#[verifier::external_body]
fn italic(s: &str) -> (r: String)
    ensures
        r@ == styled(s@, Style::Italic),
{
    s.italic().to_string()
}

/// `OwoColorize::red` colours the text: displayed, its result is the text between
/// the sequences of `Style::Red`.
#[verifier::external_body]
fn red(s: &str) -> (r: String)
    ensures
        r@ == styled(s@, Style::Red),
{
    s.red().to_string()
}

/// `OwoColorize::green` colours the text: displayed, its result is the text between
/// the sequences of `Style::Green`.
#[verifier::external_body]
fn green(s: &str) -> (r: String)
    ensures
        r@ == styled(s@, Style::Green),
{
    s.green().to_string()
}

/// `OwoColorize::yellow` colours the text: displayed, its result is the text between
/// the sequences of `Style::Yellow`.
#[verifier::external_body]
fn yellow(s: &str) -> (r: String)
    ensures
        r@ == styled(s@, Style::Yellow),
{
    s.yellow().to_string()
}

/// `OwoColorize::cyan` colours the text: displayed, its result is the text between
/// the sequences of `Style::Cyan`.
#[verifier::external_body]
fn cyan(s: &str) -> (r: String)
    ensures
        r@ == styled(s@, Style::Cyan),
{
    s.cyan().to_string()
}

/// `OwoColorize::bright_red` colours the text: displayed, its result is the text between
/// the sequences of `Style::BrightRed`.
#[verifier::external_body]
fn bright_red(s: &str) -> (r: String)
    ensures
        r@ == styled(s@, Style::BrightRed),
{
    s.bright_red().to_string()
}

/// `OwoColorize::bright_green` colours the text: displayed, its result is the text between
/// the sequences of `Style::BrightGreen`.
#[verifier::external_body]
fn bright_green(s: &str) -> (r: String)
    ensures
        r@ == styled(s@, Style::BrightGreen),
{
    s.bright_green().to_string()
}

/// `OwoColorize::bright_magenta` colours the text: displayed, its result is the text between
/// the sequences of `Style::BrightMagenta`.
#[verifier::external_body]
fn bright_magenta(s: &str) -> (r: String)
    ensures
        r@ == styled(s@, Style::BrightMagenta),
{
    s.bright_magenta().to_string()
}

/// `OwoColorize::bright_cyan` colours the text: displayed, its result is the text between
/// the sequences of `Style::BrightCyan`.
#[verifier::external_body]
fn bright_cyan(s: &str) -> (r: String)
    ensures
        r@ == styled(s@, Style::BrightCyan),
{
    s.bright_cyan().to_string()
}

/// `OwoColorize::bright_white` colours the text: displayed, its result is the text between
/// the sequences of `Style::BrightWhite`.
#[verifier::external_body]
fn bright_white(s: &str) -> (r: String)
    ensures
        r@ == styled(s@, Style::BrightWhite),
{
    s.bright_white().to_string()
}

/// `s` in `style`.
pub fn apply(s: &str, style: Style) -> (r: String)
    ensures
        r@ == styled(s@, style),
{
    match style {
        Style::Bold => bold(s),
        Style::Dimmed => dimmed(s),
        Style::Italic => italic(s),
        Style::Red => red(s),
        Style::Green => green(s),
        Style::Yellow => yellow(s),
        Style::Cyan => cyan(s),
        Style::BrightRed => bright_red(s),
        Style::BrightGreen => bright_green(s),
        Style::BrightMagenta => bright_magenta(s),
        Style::BrightCyan => bright_cyan(s),
        Style::BrightWhite => bright_white(s),
    }
}

/// `s` in `style` if `color` is set.
pub fn paint(s: &str, color: bool, style: Style) -> (r: String)
    ensures
        r@ == painted(s@, color, style),
{
    if color {
        apply(s, style)
    } else {
        String::from_str(s)
    }
}

/// `s` in two styles, `inner` within `outer`, if `color` is set.
pub fn paint_twice(s: &str, color: bool, inner: Style, outer: Style) -> (r: String)
    ensures
        r@ == painted_twice(s@, color, inner, outer),
{
    if color {
        apply(apply(s, inner).as_str(), outer)
    } else {
        String::from_str(s)
    }
}

} // verus!
