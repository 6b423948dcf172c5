//! The report as a whole.

use crate::commit::{
    commit_subject, commits, commits_slice, sha12, sha_can_be_cut, sha_divides, short_sha, subject,
};
use crate::findings::{findings_block, findings_shas_divide, print_findings_block};
use crate::format::{section_title, section_title_lines, subsep, subsep_lines};
use crate::json::{flag, get, json, text, trees_at, uint, viewed, JsonTree};
use crate::page::Page;
use crate::stats::{print_stats_block, stats_block, stats_can_be_shown, stats_fit};
use crate::style::{paint, paint_twice, painted, painted_twice, Style};
use crate::text::{
    decimal, decimal_text, lines, repeat, repeated, same_text, split_lines, texts, trim, trimmed,
};
use crate::usage::{agrees, callable, label, labelled, or_0, or_zero};
use crate::wrap::{wrap_words, wrapped};
use serde_json::Value;
use vstd::prelude::*;

verus! {

/// A model's name, or that the backend chooses one.
pub open spec fn model_name(model: Seq<char>) -> Seq<char> {
    if model.len() == 0 {
        "(backend default)"@
    } else {
        model
    }
}

/// A line of the run header.
pub open spec fn header_line(name: Seq<char>, value: Seq<char>, color: bool) -> Seq<char> {
    "  "@ + label(name, color) + " "@ + painted(value, color, Style::BrightWhite)
}

/// The run header: the range, the model, and the model for fast reviews and
/// validation where one is set that differs from the main model.
pub open spec fn run_header(
    range: Seq<char>,
    model: Seq<char>,
    validation_model: Option<Seq<char>>,
    color: bool,
) -> Seq<Seq<char>> {
    let head = seq![
        header_line("Range:"@, range, color),
        header_line("Model:"@, model_name(model), color),
    ];
    match validation_model {
        Some(v) => if v == model {
            head.push(Seq::<char>::empty())
        } else {
            head.push(header_line("Fast/validation:"@, model_name(v), color)).push(
                Seq::<char>::empty(),
            )
        },
        None => head.push(Seq::<char>::empty()),
    }
}

fn show_header_line(name: &str, value: &str, color: bool) -> (r: String)
    ensures
        r@ == header_line(name@, value@, color),
{
    String::from_str("  ").concat(labelled(name, color).as_str()).concat(" ").concat(
        paint(value, color, Style::BrightWhite).as_str(),
    )
}

fn shown_model<'a>(model: &'a str) -> (r: &'a str)
    ensures
        r@ == model_name(model@),
{
    if model.is_empty() {
        "(backend default)"
    } else {
        model
    }
}

/// The header that a run starts with.
pub fn eprint_run_header(
    range: &str,
    model: &str,
    validation_model: Option<&str>,
    color: bool,
) -> (r: Page)
    ensures
        r@ == run_header(range@, model@, viewed(validation_model), color),
{
    let mut page = Page::new();
    page.line(show_header_line("Range:", range, color));
    page.line(show_header_line("Model:", shown_model(model), color));
    assert(page@ =~= seq![
        header_line("Range:"@, range@, color),
        header_line("Model:"@, model_name(model@), color),
    ]);
    if let Some(validation) = validation_model {
        if !same_text(validation, model) {
            page.line(show_header_line("Fast/validation:", shown_model(validation), color));
        }
    }
    page.blank_line();
    page
}

/// The prose of the quick summary.
pub open spec fn summary_text(summary: JsonTree) -> Seq<char> {
    match summary.text("text"@) {
        Some(s) => trimmed(s),
        None => trimmed(""@),
    }
}

/// How many issues of a severity the quick summary counts.
pub open spec fn issue_count(summary: JsonTree, severity: Seq<char>) -> u64 {
    match summary.get("counts"@) {
        Some(counts) => or_zero(counts.uint(severity)),
        None => 0,
    }
}

/// A severity and how many issues it has.
pub open spec fn issues(summary: JsonTree, severity: Seq<char>) -> Seq<char> {
    severity + ":"@ + decimal(issue_count(summary, severity) as nat)
}

/// The line of issue counts.
pub open spec fn issues_line(summary: JsonTree, color: bool) -> Seq<char> {
    "  "@ + painted_twice("[Issues]"@, color, Style::Bold, Style::BrightCyan) + "  "@
        + painted_twice(
        issues(summary, "Critical"@),
        color,
        Style::Bold,
        Style::BrightRed,
    ) + "  "@ + painted_twice(issues(summary, "High"@), color, Style::Bold, Style::Red) + "  "@
        + painted(issues(summary, "Medium"@), color, Style::Yellow) + "  "@ + painted(
        issues(summary, "Low"@),
        color,
        Style::Green,
    )
}

/// The first `n` of `ls`, bright and indented.
pub open spec fn bright_lines(ls: Seq<Seq<char>>, n: int, color: bool) -> Seq<Seq<char>>
    decreases n,
{
    if n <= 0 {
        Seq::empty()
    } else {
        bright_lines(ls, n - 1, color).push("  "@ + painted(ls[n - 1], color, Style::BrightWhite))
    }
}

/// The prose of the quick summary, wrapped to 76 characters, where there is
/// any.
pub open spec fn summary_prose(summary: JsonTree, color: bool) -> Seq<Seq<char>> {
    let ls = wrapped(summary_text(summary), 76, 76);
    if summary_text(summary).len() == 0 {
        Seq::empty()
    } else {
        bright_lines(ls, ls.len() as int, color).push(Seq::<char>::empty())
    }
}

/// The quick summary, where there is one: its prose and the issue counts.
pub open spec fn quick_summary(out: JsonTree, color: bool) -> Seq<Seq<char>> {
    match out.get("summary"@) {
        Some(summary) => section_title_lines("Quick Summary"@, color) + summary_prose(
            summary,
            color,
        ) + seq![issues_line(summary, color), Seq::<char>::empty()] + subsep_lines(color),
        None => Seq::empty(),
    }
}

fn count_issues(summary: &Value, severity: &str) -> (r: String)
    ensures
        r@ == issues(json(*summary), severity@),
{
    let n = match get(summary, "counts") {
        Some(counts) => or_0(uint(counts, severity)),
        None => 0,
    };
    String::from_str(severity).concat(":").concat(decimal_text(n).as_str())
}

fn show_issues(summary: &Value, color: bool) -> (r: String)
    ensures
        r@ == issues_line(json(*summary), color),
{
    let critical = count_issues(summary, "Critical");
    let high = count_issues(summary, "High");
    let medium = count_issues(summary, "Medium");
    let low = count_issues(summary, "Low");
    String::from_str("  ").concat(
        paint_twice("[Issues]", color, Style::Bold, Style::BrightCyan).as_str(),
    ).concat("  ").concat(
        paint_twice(critical.as_str(), color, Style::Bold, Style::BrightRed).as_str(),
    ).concat("  ").concat(
        paint_twice(high.as_str(), color, Style::Bold, Style::Red).as_str(),
    ).concat("  ").concat(paint(medium.as_str(), color, Style::Yellow).as_str()).concat(
        "  ",
    ).concat(paint(low.as_str(), color, Style::Green).as_str())
}

fn show_prose(summary: &Value, color: bool) -> (r: Page)
    ensures
        r@ == summary_prose(json(*summary), color),
{
    let mut page = Page::new();
    let prose = match text(summary, "text") {
        Some(s) => trim(s),
        None => trim(""),
    };
    if !prose.as_str().is_empty() {
        let ls = wrap_words(prose.as_str(), 76, 76);
        let mut i: usize = 0;
        while i < ls.len()
            invariant
                i <= ls@.len(),
                page@ == bright_lines(texts(ls@), i as int, color),
            decreases ls@.len() - i,
        {
            page.line(
                String::from_str("  ").concat(
                    paint(ls[i].as_str(), color, Style::BrightWhite).as_str(),
                ),
            );
            i = i + 1;
        }
        page.blank_line();
    }
    page
}

/// The quick summary of the report `out`.
pub fn print_quick_summary_block(out: &Value, color: bool) -> (r: Page)
    ensures
        r@ == quick_summary(json(*out), color),
{
    match get(out, "summary") {
        Some(summary) => {
            let mut page = section_title("Quick Summary", color);
            page.append(show_prose(summary, color));
            let mut counts = Page::new();
            counts.line(show_issues(summary, color));
            counts.blank_line();
            assert(counts@ =~= seq![issues_line(json(*summary), color), Seq::<char>::empty()]);
            page.append(counts);
            page.append(subsep(color));
            page
        },
        None => Page::new(),
    }
}

/// The mail text of a commit, unless it is missing or empty.
pub open spec fn lkml_text(c: JsonTree) -> Option<Seq<char>> {
    match c.text("lkml_report"@) {
        Some(s) => if s.len() > 0 {
            Some(s)
        } else {
            None
        },
        None => None,
    }
}

/// Whether one of the first `n` commits has a mail text.
pub open spec fn any_lkml(cs: Seq<JsonTree>, n: int) -> bool {
    exists|i: int| 0 <= i < n && lkml_text(#[trigger] cs[i]) is Some
}

/// The heading of a commit's mail text.
pub open spec fn lkml_heading(c: JsonTree) -> Seq<char> {
    match subject(c) {
        Some(s) => "Commit "@ + sha12(c) + " - "@ + s,
        None => "Commit "@ + sha12(c),
    }
}

/// A commit's mail text under its heading, every line as it is.
pub open spec fn lkml_section(c: JsonTree, color: bool) -> Seq<Seq<char>> {
    match lkml_text(c) {
        Some(s) => seq![
            painted_twice(lkml_heading(c), color, Style::Bold, Style::BrightMagenta),
            painted(repeated('·', 60), color, Style::Dimmed),
            Seq::<char>::empty(),
        ] + lines(s) + seq![Seq::<char>::empty()],
        None => Seq::empty(),
    }
}

/// The heading of the mail section and its first `n` commits.
pub open spec fn lkml_upto(cs: Seq<JsonTree>, n: int, color: bool) -> Seq<Seq<char>>
    decreases n,
{
    if n <= 0 {
        section_title_lines("LKML-style report"@, color)
    } else {
        lkml_upto(cs, n - 1, color) + lkml_section(cs[n - 1], color)
    }
}

/// The mail section; nothing where no commit has a mail text.
pub open spec fn lkml_block(cs: Seq<JsonTree>, color: bool) -> Seq<Seq<char>> {
    if any_lkml(cs, cs.len() as int) {
        lkml_upto(cs, cs.len() as int, color)
    } else {
        Seq::empty()
    }
}

/// Whether the hash of every commit that has a mail text can be cut.
pub open spec fn lkml_shas_divide(cs: Seq<JsonTree>) -> bool {
    forall|i: int| 0 <= i < cs.len() && lkml_text(#[trigger] cs[i]) is Some ==> sha_divides(cs[i])
}

fn mail_text<'a>(c: &'a Value) -> (r: Option<&'a str>)
    ensures
        viewed(r) == lkml_text(json(*c)),
{
    match text(c, "lkml_report") {
        Some(s) => if s.is_empty() {
            None
        } else {
            Some(s)
        },
        None => None,
    }
}

fn show_mail(c: &Value, body: &str, color: bool) -> (r: Page)
    requires
        sha_divides(json(*c)),
        lkml_text(json(*c)) == Some(body@),
    ensures
        r@ == lkml_section(json(*c), color),
{
    let sha = short_sha(c);
    let heading = match commit_subject(c) {
        Some(s) => String::from_str("Commit ").concat(sha.as_str()).concat(" - ").concat(
            s.as_str(),
        ),
        None => String::from_str("Commit ").concat(sha.as_str()),
    };
    let mut page = Page::new();
    page.line(paint_twice(heading.as_str(), color, Style::Bold, Style::BrightMagenta));
    page.line(paint(repeat('·', 60).as_str(), color, Style::Dimmed));
    page.blank_line();
    page.append(Page { lines: split_lines(body) });
    page.blank_line();
    assert(page@ =~= lkml_section(json(*c), color));
    page
}

/// The mail section for `commits`.
pub fn print_lkml_block(commits: &Vec<&Value>, color: bool) -> (r: Page)
    requires
        lkml_shas_divide(trees_at(commits@)),
    ensures
        r@ == lkml_block(trees_at(commits@), color),
{
    let ghost cs = trees_at(commits@);
    let mut any = false;
    let mut i: usize = 0;
    while i < commits.len()
        invariant
            i <= commits@.len(),
            cs == trees_at(commits@),
            any == any_lkml(cs, i as int),
        decreases commits@.len() - i,
    {
        assert(cs[i as int] == json(*commits@[i as int]));
        if mail_text(commits[i]).is_some() {
            any = true;
        }
        i = i + 1;
    }
    if !any {
        return Page::new();
    }
    let mut page = section_title("LKML-style report", color);
    let mut i: usize = 0;
    while i < commits.len()
        invariant
            i <= commits@.len(),
            cs == trees_at(commits@),
            lkml_shas_divide(cs),
            page@ == lkml_upto(cs, i as int, color),
        decreases commits@.len() - i,
    {
        let c = commits[i];
        assert(cs[i as int] == json(*c));
        match mail_text(c) {
            Some(body) => page.append(show_mail(c, body, color)),
            None => page.append(Page::new()),
        }
        i = i + 1;
    }
    page
}

/// Whether the validation only filtered the findings and took the place of the
/// mail texts.
pub open spec fn findings_mode(out: JsonTree) -> bool {
    out.text("validation_mode"@) == Some("findings"@)
}

/// Whether validated findings are shown.
pub open spec fn validated_mode(out: JsonTree) -> bool {
    findings_mode(out) || out.text("validation_mode"@) == Some("filter"@)
}

/// Whether there are commits and all of them were reviewed the fast way.
pub open spec fn all_fast(cs: Seq<JsonTree>) -> bool {
    cs.len() > 0 && forall|i: int| 0 <= i < cs.len() ==> (#[trigger] cs[i]).flag("fast"@)
}

/// What of a report goes to the standard output: the quick summary, then the
/// findings unless all reviews were fast, then the mail texts unless validation
/// took their place.
pub open spec fn report_stdout(out: JsonTree, color: bool) -> Seq<Seq<char>> {
    let cs = commits(out);
    quick_summary(out, color) + (if all_fast(cs) {
        Seq::empty()
    } else {
        findings_block(cs, validated_mode(out), color)
    }) + (if findings_mode(out) {
        Seq::empty()
    } else {
        lkml_block(cs, color)
    })
}

/// What of a report goes to the standard error: the usage section.
pub open spec fn report_stderr(out: JsonTree, color: bool, short: spec_fn(u64) -> Seq<char>) -> Seq<
    Seq<char>,
> {
    stats_block(out, commits(out), color, short)
}

/// Whether a report can be printed: the hashes that it shows can be cut, and
/// the figures shown as shares.
pub open spec fn printable(out: JsonTree) -> bool {
    let cs = commits(out);
    &&& stats_fit(out, cs)
    &&& all_fast(cs) || findings_shas_divide(cs)
    &&& findings_mode(out) || lkml_shas_divide(cs)
}

/// What goes to each of the two standard streams.
pub struct Printed {
    pub stderr: Page,
    pub stdout: Page,
}

fn are_all_fast(commits: &Vec<&Value>) -> (r: bool)
    ensures
        r == all_fast(trees_at(commits@)),
{
    let ghost cs = trees_at(commits@);
    let mut i: usize = 0;
    while i < commits.len()
        invariant
            i <= commits@.len(),
            cs == trees_at(commits@),
            forall|j: int| 0 <= j < i ==> (#[trigger] cs[j]).flag("fast"@),
        decreases commits@.len() - i,
    {
        assert(cs[i as int] == json(*commits@[i as int]));
        if !flag(commits[i], "fast") {
            return false;
        }
        i = i + 1;
    }
    commits.len() > 0
}

fn mode_is(out: &Value, mode: &str) -> (r: bool)
    ensures
        r == (json(*out).text("validation_mode"@) == Some(mode@)),
{
    match text(out, "validation_mode") {
        Some(m) => same_text(m, mode),
        None => false,
    }
}

/// Whether the report `out` can be printed.
pub fn can_print_report(out: &Value) -> (r: bool)
    ensures
        r == printable(json(*out)),
{
    let list = commits_slice(out);
    let ghost cs = trees_at(list@);
    if !stats_can_be_shown(out, &list) {
        return false;
    }
    let fast = are_all_fast(&list);
    let findings_only = mode_is(out, "findings");
    let mut i: usize = 0;
    while i < list.len()
        invariant
            i <= list@.len(),
            cs == trees_at(list@),
            cs == commits(json(*out)),
            fast == all_fast(cs),
            findings_only == findings_mode(json(*out)),
            forall|j: int|
                0 <= j < i && !fast && !(#[trigger] cs[j]).flag("dry_run"@) ==> sha_divides(cs[j]),
            forall|j: int|
                0 <= j < i && !findings_only && lkml_text(#[trigger] cs[j]) is Some
                    ==> sha_divides(cs[j]),
        decreases list@.len() - i,
    {
        let c = list[i];
        assert(cs[i as int] == json(*c));
        let shown = (!fast && !flag(c, "dry_run")) || (!findings_only && mail_text(c).is_some());
        if shown && !sha_can_be_cut(c) {
            return false;
        }
        i = i + 1;
    }
    true
}

/// The human-readable report of `out`: the usage section for the standard error,
/// everything else for the standard output.
pub fn print_report_human<F: Fn(u64) -> String + Copy>(
    out: &Value,
    stdout_color: bool,
    stderr_color: bool,
    fmt_tokens_short: F,
) -> (r: Printed)
    requires
        callable(fmt_tokens_short),
        printable(json(*out)),
    ensures
        r.stdout@ == report_stdout(json(*out), stdout_color),
        forall|short: spec_fn(u64) -> Seq<char>| #[trigger]
            agrees(fmt_tokens_short, short) ==> r.stderr@ == report_stderr(
                json(*out),
                stderr_color,
                short,
            ),
{
    let commits = commits_slice(out);
    let stderr = print_stats_block(out, &commits, stderr_color, fmt_tokens_short);
    let mut stdout = print_quick_summary_block(out, stdout_color);
    let findings_only = mode_is(out, "findings");
    let use_validated = findings_only || mode_is(out, "filter");
    if are_all_fast(&commits) {
        stdout.append(Page::new());
    } else {
        stdout.append(print_findings_block(&commits, use_validated, stdout_color));
    }
    if findings_only {
        stdout.append(Page::new());
    } else {
        stdout.append(print_lkml_block(&commits, stdout_color));
    }
    Printed { stderr, stdout }
}

} // verus!
