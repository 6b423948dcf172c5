use boro::format::{fmt_wall_ms, section_title, subsep, truncate_step_name};
use boro::style::{apply, paint, paint_twice, Style};
use boro::text::{is_white_space, split_lines, split_whitespace, trim, trim_end};

const SAMPLES: [&str; 16] = [
    "",
    " ",
    "\n",
    "a",
    "a\n",
    "a\nb",
    "a\r\nb\r\n",
    "a\r",
    "a\r\r\n\nb\r",
    "\r\n\r\n",
    "  two  words ",
    "\u{2003}x\u{85}y\u{2029}z\u{feff}",
    "tab\tand\u{b}more\u{c}",
    "\u{200b}zero width\u{200b} ",
    "äö ü\u{3000}ß",
    "trailing \u{a0}\u{205f}\u{1680}",
];

#[test]
fn white_space_is_that_of_unicode() {
    for n in 0..=0x10ffffu32 {
        if let Some(c) = char::from_u32(n) {
            assert_eq!(is_white_space(c), c.is_whitespace());
        }
    }
}

#[test]
fn lines_are_those_of_std() {
    for s in SAMPLES {
        let expected: Vec<&str> = s.lines().collect();
        assert_eq!(split_lines(s), expected);
    }
}

#[test]
fn words_are_those_of_std() {
    for s in SAMPLES {
        let expected: Vec<&str> = s.split_whitespace().collect();
        assert_eq!(split_whitespace(s), expected);
    }
}

#[test]
fn trimming_is_that_of_std() {
    for s in SAMPLES {
        assert_eq!(trim(s), s.trim());
        assert_eq!(trim_end(s), s.trim_end());
    }
}

#[test]
fn wall_times_have_three_forms() {
    assert_eq!(fmt_wall_ms(0), "0ms");
    assert_eq!(fmt_wall_ms(999), "999ms");
    assert_eq!(fmt_wall_ms(1000), "1.0s");
    assert_eq!(fmt_wall_ms(1234), "1.2s");
    assert_eq!(fmt_wall_ms(1250), "1.2s");
    assert_eq!(fmt_wall_ms(1350), "1.4s");
    assert_eq!(fmt_wall_ms(599_999), "600.0s");
    assert_eq!(fmt_wall_ms(600_000), "10m 0s");
    assert_eq!(fmt_wall_ms(3_725_999), "62m 5s");
    assert_eq!(fmt_wall_ms(u64::MAX), "307445734561825m 51s");
}

#[test]
fn wall_times_are_rounded_as_floats_are() {
    for ms in 1000..600_000u64 {
        assert_eq!(fmt_wall_ms(ms), format!("{:.1}s", ms as f64 / 1000.0));
    }
}

#[test]
fn step_names_are_cut() {
    assert_eq!(truncate_step_name("short", 22), "short");
    assert_eq!(truncate_step_name("1234567890123456789012", 22), "1234567890123456789012");
    assert_eq!(truncate_step_name("12345678901234567890123", 22), "123456789012345678901...");
    assert_eq!(truncate_step_name("äöüß", 3), "äö...");
    assert_eq!(truncate_step_name("ab", 0), "...");
    assert_eq!(truncate_step_name("", 0), "");
}

#[test]
fn styles_are_escape_sequences() {
    let styles = [
        (Style::Bold, "\x1b[1m", "\x1b[0m"),
        (Style::Dimmed, "\x1b[2m", "\x1b[0m"),
        (Style::Italic, "\x1b[3m", "\x1b[0m"),
        (Style::Red, "\x1b[31m", "\x1b[39m"),
        (Style::Green, "\x1b[32m", "\x1b[39m"),
        (Style::Yellow, "\x1b[33m", "\x1b[39m"),
        (Style::Cyan, "\x1b[36m", "\x1b[39m"),
        (Style::BrightRed, "\x1b[91m", "\x1b[39m"),
        (Style::BrightGreen, "\x1b[92m", "\x1b[39m"),
        (Style::BrightMagenta, "\x1b[95m", "\x1b[39m"),
        (Style::BrightCyan, "\x1b[96m", "\x1b[39m"),
        (Style::BrightWhite, "\x1b[97m", "\x1b[39m"),
    ];
    for (style, open, close) in styles {
        assert_eq!(apply("ünï", style), format!("{open}ünï{close}"));
        assert_eq!(paint("x", true, style), format!("{open}x{close}"));
        assert_eq!(paint("x", false, style), "x");
    }
}

#[test]
fn two_styles_nest() {
    assert_eq!(
        paint_twice("x", true, Style::Bold, Style::BrightRed),
        "\x1b[91m\x1b[1mx\x1b[0m\x1b[39m"
    );
    assert_eq!(
        paint_twice("x", true, Style::Dimmed, Style::Italic),
        "\x1b[3m\x1b[2mx\x1b[0m\x1b[0m"
    );
    assert_eq!(paint_twice("x", false, Style::Dimmed, Style::Italic), "x");
}

#[test]
fn sections_have_a_title_and_an_end() {
    assert_eq!(
        section_title("Findings", false).lines,
        vec![String::new(), " Findings ".to_string(), "-".repeat(72)]
    );
    assert_eq!(
        section_title("F", true).lines,
        vec![
            String::new(),
            "\x1b[96m\x1b[1m F \x1b[0m\x1b[39m".to_string(),
            format!("\x1b[2m{}\x1b[0m", "-".repeat(72)),
        ]
    );
    assert_eq!(subsep(false).lines, vec!["·".repeat(72), String::new()]);
    assert_eq!(
        subsep(true).lines,
        vec![format!("\x1b[2m{}\x1b[0m", "·".repeat(72)), String::new()]
    );
}
