//! What the header, the quick summary, the mail texts and the report as a whole
//! show.

use crate::commit::{commits, sha12, sha_divides, subject};
use crate::findings::findings_block;
use crate::format::{section_title_lines, subsep_lines};
use crate::json::JsonTree;
use crate::report::{
    all_fast, any_lkml, bright_lines, findings_mode, issue_count, issues, issues_line, lkml_block,
    lkml_heading, lkml_section, lkml_text, lkml_upto, printable, quick_summary, report_stderr,
    report_stdout, run_header, summary_prose, summary_text, validated_mode,
};
use crate::stats::stats_block;
use crate::stats_laws::usage_sections_can_be_made;
use crate::style::{painted, painted_twice, Style};
use crate::text::{decimal, lines, repeated, trimmed, words};
use crate::text_laws::trimming_keeps_the_words;
use crate::usage::shares_fit;
use crate::wrap::wrapped;
use crate::wrap_laws::lemma_blank_has_no_words;
use vstd::prelude::*;

verus! {

/// A line of the header: a value behind its name.
pub open spec fn named_value(name: Seq<char>, value: Seq<char>, color: bool) -> Seq<char> {
    "  "@ + painted_twice(name, color, Style::Bold, Style::Dimmed) + " "@ + painted(
        value,
        color,
        Style::BrightWhite,
    )
}

/// A model, or that the backend chooses one.
pub open spec fn model_or_default(model: Seq<char>) -> Seq<char> {
    if model.len() > 0 {
        model
    } else {
        "(backend default)"@
    }
}

/// The header of a run names the range and the model, then the model for fast
/// reviews and validation if one is set and it is not the same, and ends with an
/// empty line.
pub proof fn headers_name_range_and_models(
    range: Seq<char>,
    model: Seq<char>,
    other: Seq<char>,
    color: bool,
)
    ensures
        run_header(range, model, None, color) == seq![
            named_value("Range:"@, range, color),
            named_value("Model:"@, model_or_default(model), color),
            Seq::<char>::empty(),
        ],
        other == model ==> run_header(range, model, Some(other), color) == run_header(
            range,
            model,
            None,
            color,
        ),
        other != model ==> run_header(range, model, Some(other), color) == seq![
            named_value("Range:"@, range, color),
            named_value("Model:"@, model_or_default(model), color),
            named_value("Fast/validation:"@, model_or_default(other), color),
            Seq::<char>::empty(),
        ],
{
    assert(run_header(range, model, None, color) =~= seq![
        named_value("Range:"@, range, color),
        named_value("Model:"@, model_or_default(model), color),
        Seq::<char>::empty(),
    ]);
    if other != model {
        assert(run_header(range, model, Some(other), color) =~= seq![
            named_value("Range:"@, range, color),
            named_value("Model:"@, model_or_default(model), color),
            named_value("Fast/validation:"@, model_or_default(other), color),
            Seq::<char>::empty(),
        ]);
    }
}

/// The number that the summary counts under the severity of that name, zero
/// where there is none.
pub proof fn issues_are_counted_under_their_severity(
    summary: JsonTree,
    counts: JsonTree,
    severity: Seq<char>,
    n: u64,
)
    ensures
        summary.get("counts"@) == Some(counts) && counts.uint(severity) == Some(n) ==> issue_count(
            summary,
            severity,
        ) == n && issues(summary, severity) == severity + ":"@ + decimal(n as nat),
        summary.get("counts"@) == Some(counts) && counts.uint(severity) is None ==> issue_count(
            summary,
            severity,
        ) == 0 && issues(summary, severity) == severity + ":"@ + decimal(0),
        summary.get("counts"@) is None ==> issue_count(summary, severity) == 0 && issues(
            summary,
            severity,
        ) == severity + ":"@ + decimal(0),
{
}

/// The line of issues shows, from the most severe on, every severity with the
/// number that is counted under its name.
pub proof fn issues_are_listed_by_severity(
    summary: JsonTree,
    counts: JsonTree,
    a: u64,
    b: u64,
    c: u64,
    d: u64,
    color: bool,
)
    requires
        summary.get("counts"@) == Some(counts),
        counts.uint("Critical"@) == Some(a),
        counts.uint("High"@) == Some(b),
        counts.uint("Medium"@) == Some(c),
        counts.uint("Low"@) == Some(d),
    ensures
        issues_line(summary, color) == "  "@ + painted_twice(
            "[Issues]"@,
            color,
            Style::Bold,
            Style::BrightCyan,
        ) + "  "@ + painted_twice(
            "Critical"@ + ":"@ + decimal(a as nat),
            color,
            Style::Bold,
            Style::BrightRed,
        ) + "  "@ + painted_twice(
            "High"@ + ":"@ + decimal(b as nat),
            color,
            Style::Bold,
            Style::Red,
        ) + "  "@ + painted("Medium"@ + ":"@ + decimal(c as nat), color, Style::Yellow) + "  "@
            + painted("Low"@ + ":"@ + decimal(d as nat), color, Style::Green),
        issues_line(summary, false) == "  [Issues]  Critical:"@ + decimal(a as nat) + "  High:"@
            + decimal(b as nat) + "  Medium:"@ + decimal(c as nat) + "  Low:"@ + decimal(d as nat),
{
    reveal_strlit("  ");
    reveal_strlit(":");
    reveal_strlit("[Issues]");
    reveal_strlit("Critical");
    reveal_strlit("High");
    reveal_strlit("Medium");
    reveal_strlit("Low");
    reveal_strlit("  [Issues]  Critical:");
    reveal_strlit("  High:");
    reveal_strlit("  Medium:");
    reveal_strlit("  Low:");
    assert("  "@ + "[Issues]"@ + "  "@ + "Critical"@ + ":"@ =~= "  [Issues]  Critical:"@);
    assert("  "@ + "High"@ + ":"@ =~= "  High:"@);
    assert("  "@ + "Medium"@ + ":"@ =~= "  Medium:"@);
    assert("  "@ + "Low"@ + ":"@ =~= "  Low:"@);
    let na = decimal(a as nat);
    let nb = decimal(b as nat);
    let nc = decimal(c as nat);
    let nd = decimal(d as nat);
    let x0 = "  "@ + "[Issues]"@ + "  "@;
    lemma_cell_behind(x0, "Critical"@, ":"@, na);
    let x1 = "  [Issues]  Critical:"@ + na;
    lemma_gap_and_cell_behind(x1, "  "@, "High"@, ":"@, nb);
    let x2 = x1 + "  High:"@ + nb;
    lemma_gap_and_cell_behind(x2, "  "@, "Medium"@, ":"@, nc);
    let x3 = x2 + "  Medium:"@ + nc;
    lemma_gap_and_cell_behind(x3, "  "@, "Low"@, ":"@, nd);
}

proof fn lemma_cell_behind(x: Seq<char>, name: Seq<char>, colon: Seq<char>, n: Seq<char>)
    ensures
        x + (name + colon + n) == x + name + colon + n,
{
    assert(x + (name + colon + n) =~= x + name + colon + n);
}

proof fn lemma_gap_and_cell_behind(
    x: Seq<char>,
    gap: Seq<char>,
    name: Seq<char>,
    colon: Seq<char>,
    n: Seq<char>,
)
    ensures
        x + gap + (name + colon + n) == x + (gap + name + colon) + n,
{
    assert(x + gap + (name + colon + n) =~= x + (gap + name + colon) + n);
}

/// The prose of the summary is wrapped to 76 characters, bright and indented,
/// and followed by an empty line; prose without words is not shown.
pub proof fn summaries_show_their_prose(summary: JsonTree, s: Seq<char>, color: bool)
    ensures
        summary.text("text"@) is None ==> summary_prose(summary, color).len() == 0,
        summary.text("text"@) == Some(s) && words(s).len() == 0 ==> summary_prose(
            summary,
            color,
        ).len() == 0,
        summary.text("text"@) == Some(s) && words(s).len() > 0 ==> summary_prose(summary, color)
            == Seq::new(
            wrapped(s, 76, 76).len(),
            |i: int| "  "@ + painted(wrapped(s, 76, 76)[i], color, Style::BrightWhite),
        ).push(Seq::<char>::empty()),
{
    reveal_strlit("");
    trimming_keeps_the_words(s);
    lemma_blank_has_no_words(s);
    lemma_bright(wrapped(s, 76, 76), wrapped(s, 76, 76).len(), color);
    if summary.text("text"@) is None {
        assert(trimmed(""@) =~= Seq::<char>::empty());
    } else if summary.text("text"@) == Some(s) {
        assert(summary_text(summary) == trimmed(s));
        assert(wrapped(trimmed(s), 76, 76) == wrapped(s, 76, 76));
    }
}

proof fn lemma_bright(ls: Seq<Seq<char>>, n: nat, color: bool)
    ensures
        bright_lines(ls, n as int, color) == Seq::new(
            n,
            |i: int| "  "@ + painted(ls[i], color, Style::BrightWhite),
        ),
    decreases n,
{
    if n > 0 {
        lemma_bright(ls, (n - 1) as nat, color);
    }
    assert(bright_lines(ls, n as int, color) =~= Seq::new(
        n,
        |i: int| "  "@ + painted(ls[i], color, Style::BrightWhite),
    ));
}

/// A report that has a summary shows its prose and its issues in a section of
/// their own; one that has none shows no such section.
pub proof fn summaries_are_shown_where_there_is_one(
    out: JsonTree,
    summary: JsonTree,
    color: bool,
)
    ensures
        out.get("summary"@) is None ==> quick_summary(out, color).len() == 0,
        out.get("summary"@) == Some(summary) ==> {
            let r = quick_summary(out, color);
            let title = section_title_lines("Quick Summary"@, color);
            let k = title.len() as int;
            let m = summary_prose(summary, color).len() as int;
            &&& r.take(k) == title
            &&& r.subrange(k, k + m) == summary_prose(summary, color)
            &&& r[k + m] == issues_line(summary, color)
            &&& r[k + m + 1].len() == 0
            &&& r.skip(k + m + 2) == subsep_lines(color)
        },
{
    if out.get("summary"@) == Some(summary) {
        let r = quick_summary(out, color);
        let title = section_title_lines("Quick Summary"@, color);
        let k = title.len() as int;
        let m = summary_prose(summary, color).len() as int;
        assert(r.take(k) =~= title);
        assert(r.subrange(k, k + m) =~= summary_prose(summary, color));
        assert(r.skip(k + m + 2) =~= subsep_lines(color));
    }
}

/// A commit that has a mail text shows it whole, line by line, below a heading
/// with its hash and its subject, whatever else the commit holds. A commit
/// without one, or with an empty one, shows nothing.
pub proof fn mail_texts_stand_below_their_heading(c: JsonTree, s: Seq<char>, color: bool)
    ensures
        c.text("lkml_report"@) is None ==> lkml_section(c, color).len() == 0,
        c.text("lkml_report"@) == Some(s) && s.len() == 0 ==> lkml_section(c, color).len() == 0,
        c.text("lkml_report"@) == Some(s) && s.len() > 0 ==> {
            let r = lkml_section(c, color);
            let n = lines(s).len() as int;
            &&& r.len() == n + 4
            &&& r[0] == painted_twice(
                "Commit "@ + sha12(c) + (match subject(c) {
                    Some(t) => " - "@ + t,
                    None => Seq::empty(),
                }),
                color,
                Style::Bold,
                Style::BrightMagenta,
            )
            &&& r[1] == painted(repeated('·', 60), color, Style::Dimmed)
            &&& r[2].len() == 0
            &&& r.subrange(3, 3 + n) == lines(s)
            &&& r[3 + n].len() == 0
        },
{
    if c.text("lkml_report"@) == Some(s) && s.len() > 0 {
        let n = lines(s).len() as int;
        assert(lkml_section(c, color).subrange(3, 3 + n) =~= lines(s));
        match subject(c) {
            Some(t) => {
                assert("Commit "@ + sha12(c) + " - "@ + t =~= "Commit "@ + sha12(c) + (" - "@ + t));
            },
            None => {
                assert("Commit "@ + sha12(c) + Seq::<char>::empty() =~= "Commit "@ + sha12(c));
            },
        }
        assert(lkml_section(c, color)[0] == painted_twice(
            lkml_heading(c),
            color,
            Style::Bold,
            Style::BrightMagenta,
        ));
    }
}

/// The mail section shows, below its title, every commit in order. There is no
/// such section if and only if every commit's mail text is missing or empty.
pub proof fn mail_sections_show_every_commit(cs: Seq<JsonTree>, color: bool)
    ensures
        (forall|i: int|
            0 <= i < cs.len() ==> ((#[trigger] cs[i]).text("lkml_report"@) matches Some(s) ==> s.len()
                == 0)) ==> lkml_block(cs, color).len() == 0,
        (exists|i: int|
            0 <= i < cs.len() && ((#[trigger] cs[i]).text("lkml_report"@) matches Some(s) && s.len()
                > 0)) ==> lkml_block(cs, color) == section_title_lines("LKML-style report"@, color)
            + Seq::new(cs.len(), |i: int| lkml_section(cs[i], color)).flatten(),
{
    lemma_mails(cs, cs.len(), color);
    if exists|i: int|
        0 <= i < cs.len() && ((#[trigger] cs[i]).text("lkml_report"@) matches Some(s) && s.len()
            > 0) {
        let i = choose|i: int|
            0 <= i < cs.len() && ((#[trigger] cs[i]).text("lkml_report"@) matches Some(s)
                && s.len() > 0);
        assert(lkml_text(cs[i]) is Some);
        assert(any_lkml(cs, cs.len() as int));
    }
}

proof fn lemma_mails(cs: Seq<JsonTree>, n: nat, color: bool)
    ensures
        lkml_upto(cs, n as int, color) == section_title_lines("LKML-style report"@, color)
            + Seq::new(n, |i: int| lkml_section(cs[i], color)).flatten(),
    decreases n,
{
    let block = |i: int| lkml_section(cs[i], color);
    let all = Seq::new(n, block);
    let head = section_title_lines("LKML-style report"@, color);
    if n == 0 {
        assert(head + all.flatten() =~= head);
    } else {
        let before = Seq::new((n - 1) as nat, block);
        lemma_mails(cs, (n - 1) as nat, color);
        assert(all =~= before.push(block(n - 1)));
        before.lemma_flatten_push(block(n - 1));
        assert(lkml_upto(cs, n as int, color) =~= head + all.flatten());
    }
}

proof fn lemma_mails_grow(cs: Seq<JsonTree>, k: int, n: int, color: bool)
    requires
        0 <= k <= n <= cs.len(),
    ensures
        lkml_upto(cs, k, color).len() <= lkml_upto(cs, n, color).len(),
        lkml_upto(cs, n, color).take(lkml_upto(cs, k, color).len() as int) == lkml_upto(
            cs,
            k,
            color,
        ),
    decreases n - k,
{
    let x = lkml_upto(cs, k, color);
    if k < n {
        lemma_mails_grow(cs, k, n - 1, color);
        assert(lkml_upto(cs, n, color).take(x.len() as int) =~= lkml_upto(cs, n - 1, color).take(
            x.len() as int,
        ));
    } else {
        assert(x.take(x.len() as int) =~= x);
    }
}

/// Unless validation took the place of the mail texts, every mail text of a
/// commit of the report is a run of lines of what goes to the standard output.
pub proof fn mail_texts_reach_the_standard_output(
    out: JsonTree,
    i: int,
    s: Seq<char>,
    color: bool,
) -> (at: int)
    requires
        out.text("validation_mode"@) != Some("findings"@),
        0 <= i < commits(out).len(),
        commits(out)[i].text("lkml_report"@) == Some(s),
        s.len() > 0,
    ensures
        0 <= at,
        at + lines(s).len() <= report_stdout(out, color).len(),
        report_stdout(out, color).subrange(at, at + lines(s).len()) == lines(s),
{
    let cs = commits(out);
    let block = lkml_block(cs, color);
    let before = lkml_upto(cs, i, color);
    let upto = lkml_upto(cs, i + 1, color);
    let n = lines(s).len() as int;
    assert(lkml_text(cs[i]) is Some);
    assert(any_lkml(cs, cs.len() as int));
    lemma_mails_grow(cs, i + 1, cs.len() as int, color);
    mail_texts_stand_below_their_heading(cs[i], s, color);
    assert(upto == before + lkml_section(cs[i], color));
    let all = report_stdout(out, color);
    let skipped = all.len() - block.len();
    assert(all.skip(skipped) =~= block);
    let at = skipped + before.len() + 3;
    assert forall|j: int| 0 <= j < n implies all[at + j] == #[trigger] lines(s)[j] by {
        assert(all.skip(skipped)[before.len() + 3 + j] == all[at + j]);
        assert(block.take(upto.len() as int)[before.len() + 3 + j] == upto[before.len() + 3 + j]);
        assert(lkml_section(cs[i], color).subrange(3, 3 + n)[j] == lkml_section(
            cs[i],
            color,
        )[3 + j]);
    }
    assert(all.subrange(at, at + n) =~= lines(s));
    at
}

/// What goes to the standard output is the quick summary, the findings and the
/// mail texts, in this order. The findings are left out if there are commits and
/// every one was reviewed the fast way; the mail texts are left out in findings
/// mode; validated findings are shown in findings mode and in filter mode.
pub proof fn standard_output_goes_by_mode(out: JsonTree, color: bool)
    ensures
        ({
            let cs = commits(out);
            let mode = out.text("validation_mode"@);
            let fast = cs.len() > 0 && forall|i: int|
                0 <= i < cs.len() ==> (#[trigger] cs[i]).flag("fast"@);
            let findings = if fast {
                Seq::empty()
            } else if mode == Some("findings"@) || mode == Some("filter"@) {
                findings_block(cs, true, color)
            } else {
                findings_block(cs, false, color)
            };
            let mails = if mode == Some("findings"@) {
                Seq::empty()
            } else {
                lkml_block(cs, color)
            };
            report_stdout(out, color) == quick_summary(out, color) + findings + mails
        }),
{
    let cs = commits(out);
    assert(all_fast(cs) == (cs.len() > 0 && forall|i: int|
        0 <= i < cs.len() ==> (#[trigger] cs[i]).flag("fast"@)));
    assert(findings_mode(out) == (out.text("validation_mode"@) == Some("findings"@)));
    assert(validated_mode(out) == (out.text("validation_mode"@) == Some("findings"@) || out.text(
        "validation_mode"@,
    ) == Some("filter"@)));
}

/// What goes to the standard error is the usage section of the report with its
/// own commits.
pub proof fn standard_error_has_the_usage_section(
    out: JsonTree,
    color: bool,
    short: spec_fn(u64) -> Seq<char>,
)
    ensures
        report_stderr(out, color, short) == stats_block(out, commits(out), color, short),
{
}

/// Any report can be printed of which the hashes can be cut and the figures
/// shown as shares.
pub proof fn ordinary_reports_can_be_printed(out: JsonTree)
    requires
        out.get("usage_summary"@) matches Some(u) ==> shares_fit(u),
        out.get("validation_usage"@) matches Some(u) ==> shares_fit(u),
        forall|i: int|
            0 <= i < commits(out).len() ==> sha_divides(#[trigger] commits(out)[i]) && (commits(
                out,
            )[i].get("usage"@) matches Some(u) ==> shares_fit(u)),
    ensures
        printable(out),
{
    usage_sections_can_be_made(out, commits(out));
}

} // verus!
