//! The small pieces that every section of the report is made of.

use crate::page::Page;
use crate::style::{paint, paint_twice, painted, painted_twice, Style};
use crate::text::{chars_of, decimal, decimal_text, repeat, repeated, string_of};
use vstd::prelude::*;

verus! {

/// The width of the rules between sections.
pub const WIDTH: usize = 72;

/// The largest width of the wrapped lines of a finding: its text and the
/// explanation of its severity.
pub const FINDING_LINE_MAX: usize = 100;

/// `a / b`, rounded to the nearest integer; of two that are equally near, to
/// the even one.
pub open spec fn nearest(a: nat, b: nat) -> nat {
    let q = a / b;
    let r = a % b;
    if 2 * r < b || (2 * r == b && q % 2 == 0) {
        q
    } else {
        q + 1
    }
}

/// Into how many parts a double-precision number divides one unit, for numbers
/// whose integral part is `n`: two to the power 52, halved each time the number
/// doubles.
pub open spec fn double_parts(n: nat) -> nat
    decreases n,
{
    if n < 2 {
        4503599627370496
    } else {
        double_parts(n / 2) / 2
    }
}

/// The tenths of a second to which `ms` milliseconds are rounded: the quotient
/// by a thousand is first rounded to double precision, and that to one decimal.
pub open spec fn wall_tenths(ms: nat) -> nat {
    let parts = double_parts(ms / 1000);
    nearest(nearest(ms * parts, 1000) * 10, parts)
}

/// A time given in milliseconds: below a second in milliseconds, below ten
/// minutes in seconds and tenths, and from there on in minutes and seconds.
pub open spec fn wall_text(ms: nat) -> Seq<char> {
    if ms < 1000 {
        decimal(ms) + "ms"@
    } else if ms < 600000 {
        decimal(wall_tenths(ms) / 10) + "."@ + decimal(wall_tenths(ms) % 10) + "s"@
    } else {
        decimal(ms / 1000 / 60) + "m "@ + decimal(ms / 1000 % 60) + "s"@
    }
}

fn round_to_nearest(a: u128, b: u128) -> (r: u128)
    requires
        0 < b <= 4503599627370496,
        a <= 0x1_0000_0000_0000_0000_0000_0000,
    ensures
        r == nearest(a as nat, b as nat),
{
    let q = a / b;
    let r = a % b;
    if 2 * r < b || (2 * r == b && q % 2 == 0) {
        q
    } else {
        assert(q <= a) by (nonlinear_arith)
            requires
                b > 0,
                q == a / b,
                a >= 0,
        ;
        q + 1
    }
}

fn parts_of_second(secs: u64) -> (r: u128)
    requires
        1 <= secs < 1024,
    ensures
        r == double_parts(secs as nat),
        0 < r <= 4503599627370496,
{
    proof {
        reveal_with_fuel(double_parts, 11);
    }
    if secs < 2 {
        4503599627370496
    } else if secs < 4 {
        2251799813685248
    } else if secs < 8 {
        1125899906842624
    } else if secs < 16 {
        562949953421312
    } else if secs < 32 {
        281474976710656
    } else if secs < 64 {
        140737488355328
    } else if secs < 128 {
        70368744177664
    } else if secs < 256 {
        35184372088832
    } else if secs < 512 {
        17592186044416
    } else {
        8796093022208
    }
}

/// Formats a time given in milliseconds.
pub fn fmt_wall_ms(ms: u64) -> (r: String)
    ensures
        r@ == wall_text(ms as nat),
{
    if ms < 1000 {
        decimal_text(ms).concat("ms")
    } else if ms < 600_000 {
        let parts = parts_of_second(ms / 1000);
        assert(ms * parts <= 600000 * 4503599627370496) by (nonlinear_arith)
            requires
                ms < 600000,
                0 < parts <= 4503599627370496,
        ;
        let mantissa = round_to_nearest(ms as u128 * parts, 1000);
        let tenths = round_to_nearest(mantissa * 10, parts);
        assert(tenths <= mantissa * 10 + 1);
        decimal_text((tenths / 10) as u64).concat(".").concat(
            decimal_text((tenths % 10) as u64).as_str(),
        ).concat("s")
    } else {
        let s = ms / 1000;
        decimal_text(s / 60).concat("m ").concat(decimal_text(s % 60).as_str()).concat("s")
    }
}

/// A step name of more than `max` characters is cut one character short of
/// that, and an ellipsis put behind it.
pub open spec fn step_name(name: Seq<char>, max: nat) -> Seq<char> {
    if name.len() <= max {
        name
    } else {
        name.take(if max == 0 {
            0
        } else {
            max - 1
        }) + "..."@
    }
}

/// Cuts a step name down for its column.
pub fn truncate_step_name(name: &str, max: usize) -> (r: String)
    ensures
        r@ == step_name(name@, max as nat),
{
    let cs = chars_of(name);
    if cs.len() <= max {
        return String::from_str(name);
    }
    let take: usize = if max == 0 { 0 } else { max - 1 };
    assert(cs@.subrange(0, take as int) =~= name@.take(take as int));
    string_of(&cs, 0, take).concat("...")
}

/// A section's heading: an empty line, the title, and a rule.
pub open spec fn section_title_lines(title: Seq<char>, color: bool) -> Seq<Seq<char>> {
    seq![
        Seq::<char>::empty(),
        painted_twice(" "@ + title + " "@, color, Style::Bold, Style::BrightCyan),
        painted(repeated('-', WIDTH as nat), color, Style::Dimmed),
    ]
}

/// The heading of a section.
pub fn section_title(title: &str, color: bool) -> (r: Page)
    ensures
        r@ == section_title_lines(title@, color),
{
    let mut page = Page::new();
    page.blank_line();
    page.line(
        paint_twice(
            String::from_str(" ").concat(title).concat(" ").as_str(),
            color,
            Style::Bold,
            Style::BrightCyan,
        ),
    );
    page.line(paint(repeat('-', WIDTH).as_str(), color, Style::Dimmed));
    page
}

/// What ends a section: a dotted rule and an empty line.
pub open spec fn subsep_lines(color: bool) -> Seq<Seq<char>> {
    seq![painted(repeated('·', WIDTH as nat), color, Style::Dimmed), Seq::<char>::empty()]
}

/// The end of a section.
pub fn subsep(color: bool) -> (r: Page)
    ensures
        r@ == subsep_lines(color),
{
    let mut page = Page::new();
    page.line(paint(repeat('·', WIDTH).as_str(), color, Style::Dimmed));
    page.blank_line();
    page
}

} // verus!
