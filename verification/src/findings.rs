//! The findings section.

use crate::commit::{
    commit_effective_findings, commit_subject, effective_findings, sha12, sha_divides, short_sha,
    subject,
};
use crate::format::{section_title, section_title_lines, subsep, subsep_lines, FINDING_LINE_MAX};
use crate::json::{flag, held_all, items, json, text, trees, trees_at, JsonTree};
use crate::page::Page;
use crate::plan::{
    bare_plan, has_bare_plan, plan_only_lines, print_plan_only, print_test_summary,
    test_summary_lines,
};
use crate::style::{paint, paint_twice, painted, painted_twice, Style};
use crate::text::{
    decimal, decimal_text, join, joined, lines, same_text, split_lines, texts, trim_end,
    trimmed_end,
};
use crate::wrap::{wrap_finding_body, wrap_words, wrapped, wrapped_body};
use serde_json::Value;
use vstd::prelude::*;

verus! {

/// How far the lines of a finding are indented, but for its first.
pub const FINDING_INDENT: usize = 9;

/// What stands in front of the lines of a finding, but for its first.
pub open spec fn finding_indent() -> Seq<char> {
    "         "@
}

/// A severity in brackets.
pub open spec fn tag(severity: Seq<char>) -> Seq<char> {
    "["@ + severity + "]"@
}

/// The tag of a severity in its colour.
pub open spec fn shown_tag(severity: Seq<char>, color: bool) -> Seq<char> {
    if severity == "Critical"@ {
        painted_twice(tag(severity), color, Style::Bold, Style::BrightRed)
    } else if severity == "High"@ {
        painted_twice(tag(severity), color, Style::Bold, Style::Red)
    } else if severity == "Medium"@ {
        painted(tag(severity), color, Style::Yellow)
    } else if severity == "Low"@ {
        painted(tag(severity), color, Style::Green)
    } else {
        painted(tag(severity), color, Style::Dimmed)
    }
}

/// `a - b`, but at least one.
pub open spec fn room(a: int, b: int) -> nat {
    if a - b < 1 {
        1
    } else {
        (a - b) as nat
    }
}

/// The text of a finding.
pub open spec fn problem(f: JsonTree) -> Seq<char> {
    match f.text("problem"@) {
        Some(s) => s,
        None => "(no problem text)"@,
    }
}

/// The severity of a finding.
pub open spec fn severity(f: JsonTree) -> Seq<char> {
    match f.text("severity"@) {
        Some(s) => s,
        None => "?"@,
    }
}

/// The number of a finding, as it stands in front of it.
pub open spec fn number(idx: int) -> Seq<char> {
    decimal(idx as nat) + "."@
}

/// How much of its first line a finding's number and tag take up.
pub open spec fn prefix_len(idx: int, f: JsonTree) -> nat {
    4 + number(idx).len() + 2 + tag(severity(f)).len() + 1
}

/// How wide the other lines of a finding may be behind their indent.
pub open spec fn finding_width() -> nat {
    room(FINDING_LINE_MAX as int, FINDING_INDENT as int)
}

/// The lines of a finding's text, wrapped to what its number and tag leave of
/// the first line, and its indent of the others.
pub open spec fn problem_lines(idx: int, f: JsonTree) -> Seq<Seq<char>> {
    wrapped_body(
        problem(f),
        room(FINDING_LINE_MAX as int, prefix_len(idx, f) as int),
        finding_width(),
    )
}

/// The first line of a finding, with the text `s`.
pub open spec fn first_line(idx: int, f: JsonTree, s: Seq<char>, color: bool) -> Seq<char> {
    "    "@ + painted_twice(number(idx), color, Style::Bold, Style::Dimmed) + "  "@ + shown_tag(
        severity(f),
        color,
    ) + " "@ + painted(s, color, Style::BrightWhite)
}

/// The first `n` lines of a finding's text.
pub open spec fn problem_upto(
    idx: int,
    f: JsonTree,
    ls: Seq<Seq<char>>,
    n: int,
    color: bool,
) -> Seq<Seq<char>>
    decreases n,
{
    if n <= 0 {
        Seq::empty()
    } else if n == 1 {
        seq![first_line(idx, f, ls[0], color)]
    } else {
        problem_upto(idx, f, ls, n - 1, color).push(
            finding_indent() + painted(ls[n - 1], color, Style::BrightWhite),
        )
    }
}

/// The lines of a finding's text; a text without words stands as it is.
pub open spec fn shown_problem(idx: int, f: JsonTree, color: bool) -> Seq<Seq<char>> {
    let ls = problem_lines(idx, f);
    if ls.len() == 0 {
        seq![first_line(idx, f, problem(f), color)]
    } else {
        problem_upto(idx, f, ls, ls.len() as int, color)
    }
}

/// The texts among the first `n` of `vs`.
pub open spec fn strings(vs: Seq<JsonTree>, n: int) -> Seq<Seq<char>>
    decreases n,
{
    if n <= 0 {
        Seq::empty()
    } else {
        match vs[n - 1].as_str() {
            Some(s) => strings(vs, n - 1).push(s),
            None => strings(vs, n - 1),
        }
    }
}

/// The names of those who voted for a finding.
pub open spec fn voters(f: JsonTree) -> Seq<Seq<char>> {
    match f.items("voters"@) {
        Some(vs) => strings(vs, vs.len() as int),
        None => Seq::empty(),
    }
}

/// The line that names those who voted for a finding, if there are any.
pub open spec fn shown_voters(f: JsonTree, color: bool) -> Seq<Seq<char>> {
    if voters(f).len() == 0 {
        Seq::empty()
    } else {
        seq![
            finding_indent() + painted_twice(
                "(voters: "@ + joined(voters(f), voters(f).len() as int, ", "@) + ")"@,
                color,
                Style::Dimmed,
                Style::Italic,
            ),
        ]
    }
}

/// The first `n` of `ls`, dimmed and indented.
pub open spec fn dimmed_lines(ls: Seq<Seq<char>>, n: int, color: bool) -> Seq<Seq<char>>
    decreases n,
{
    if n <= 0 {
        Seq::empty()
    } else {
        dimmed_lines(ls, n - 1, color).push(
            finding_indent() + painted(ls[n - 1], color, Style::Dimmed),
        )
    }
}

/// The first `n` of the lines `ls` of an explanation, each wrapped on its own.
pub open spec fn explanation_upto(ls: Seq<Seq<char>>, n: int, color: bool) -> Seq<Seq<char>>
    decreases n,
{
    if n <= 0 {
        Seq::empty()
    } else {
        let w = wrapped(trimmed_end(ls[n - 1]), finding_width(), finding_width());
        explanation_upto(ls, n - 1, color) + dimmed_lines(w, w.len() as int, color)
    }
}

/// The lines of the explanation of a finding's severity.
pub open spec fn shown_explanation(f: JsonTree, color: bool) -> Seq<Seq<char>> {
    match f.text("severity_explanation"@) {
        Some(s) => explanation_upto(lines(s), lines(s).len() as int, color),
        None => Seq::empty(),
    }
}

/// A finding: an empty line, its text behind its number and tag, who voted for
/// it, and why it is that severe.
pub open spec fn finding_lines(idx: int, f: JsonTree, color: bool) -> Seq<Seq<char>> {
    seq![Seq::<char>::empty()] + shown_problem(idx, f, color) + shown_voters(f, color)
        + shown_explanation(f, color)
}

fn show_tag(sev: &str, color: bool) -> (r: String)
    ensures
        r@ == shown_tag(sev@, color),
{
    let tag = String::from_str("[").concat(sev).concat("]");
    if same_text(sev, "Critical") {
        paint_twice(tag.as_str(), color, Style::Bold, Style::BrightRed)
    } else if same_text(sev, "High") {
        paint_twice(tag.as_str(), color, Style::Bold, Style::Red)
    } else if same_text(sev, "Medium") {
        paint(tag.as_str(), color, Style::Yellow)
    } else if same_text(sev, "Low") {
        paint(tag.as_str(), color, Style::Green)
    } else {
        paint(tag.as_str(), color, Style::Dimmed)
    }
}

fn show_problem(idx: usize, f: &Value, color: bool) -> (r: Page)
    ensures
        r@ == shown_problem(idx as int, json(*f), color),
{
    let ghost t = json(*f);
    let problem = match text(f, "problem") {
        Some(s) => s,
        None => "(no problem text)",
    };
    let sev = match text(f, "severity") {
        Some(s) => s,
        None => "?",
    };
    let num = decimal_text(idx as u64).concat(".");
    let tag = String::from_str("[").concat(sev).concat("]");
    let left = FINDING_LINE_MAX.saturating_sub(4).saturating_sub(
        num.as_str().unicode_len(),
    ).saturating_sub(2).saturating_sub(tag.as_str().unicode_len()).saturating_sub(1);
    let first_budget: usize = if left < 1 { 1 } else { left };
    let cont_budget: usize = FINDING_LINE_MAX - FINDING_INDENT;
    let ls = wrap_finding_body(problem, first_budget, cont_budget);

    let head = String::from_str("    ").concat(
        paint_twice(num.as_str(), color, Style::Bold, Style::Dimmed).as_str(),
    ).concat("  ").concat(show_tag(sev, color).as_str()).concat(" ");
    let mut page = Page::new();
    if ls.len() == 0 {
        page.line(head.concat(paint(problem, color, Style::BrightWhite).as_str()));
        return page;
    }
    let ghost begun = head@;
    let mut li: usize = 0;
    while li < ls.len()
        invariant
            li <= ls@.len(),
            head@ == begun,
            forall|s: Seq<char>|
                #[trigger] first_line(idx as int, t, s, color) == begun + painted(
                    s,
                    color,
                    Style::BrightWhite,
                ),
            page@ == problem_upto(idx as int, t, texts(ls@), li as int, color),
        decreases ls@.len() - li,
    {
        let line = paint(ls[li].as_str(), color, Style::BrightWhite);
        if li == 0 {
            page.line(head.clone().concat(line.as_str()));
        } else {
            page.line(String::from_str("         ").concat(line.as_str()));
        }
        li = li + 1;
    }
    page
}

fn show_voters(f: &Value, color: bool) -> (r: Page)
    ensures
        r@ == shown_voters(json(*f), color),
{
    let mut page = Page::new();
    let mut names: Vec<String> = Vec::new();
    assert(texts(names@) =~= Seq::<Seq<char>>::empty());
    if let Some(arr) = items(f, "voters") {
        let mut i: usize = 0;
        while i < arr.len()
            invariant
                i <= arr@.len(),
                texts(names@) == strings(trees(arr@), i as int),
            decreases arr@.len() - i,
        {
            let ghost prior = names@;
            if let Some(s) = arr[i].as_str() {
                let name = String::from_str(s);
                names.push(name);
                assert(texts(names@) =~= texts(prior).push(s@));
            }
            i = i + 1;
        }
    }
    if names.len() > 0 {
        let suffix = String::from_str("(voters: ").concat(join(&names, ", ").as_str()).concat(")");
        page.line(
            String::from_str("         ").concat(
                paint_twice(suffix.as_str(), color, Style::Dimmed, Style::Italic).as_str(),
            ),
        );
    }
    page
}

fn show_dimmed(ls: &Vec<String>, color: bool) -> (r: Page)
    ensures
        r@ == dimmed_lines(texts(ls@), ls@.len() as int, color),
{
    let mut page = Page::new();
    let mut i: usize = 0;
    while i < ls.len()
        invariant
            i <= ls@.len(),
            page@ == dimmed_lines(texts(ls@), i as int, color),
        decreases ls@.len() - i,
    {
        page.line(
            String::from_str("         ").concat(
                paint(ls[i].as_str(), color, Style::Dimmed).as_str(),
            ),
        );
        i = i + 1;
    }
    page
}

fn show_explanation(f: &Value, color: bool) -> (r: Page)
    ensures
        r@ == shown_explanation(json(*f), color),
{
    let mut page = Page::new();
    if let Some(exp) = text(f, "severity_explanation") {
        let budget: usize = FINDING_LINE_MAX - FINDING_INDENT;
        let ls = split_lines(exp);
        let mut i: usize = 0;
        while i < ls.len()
            invariant
                i <= ls@.len(),
                budget == finding_width(),
                page@ == explanation_upto(texts(ls@), i as int, color),
            decreases ls@.len() - i,
        {
            let w = wrap_words(trim_end(ls[i].as_str()).as_str(), budget, budget);
            page.append(show_dimmed(&w, color));
            i = i + 1;
        }
    }
    page
}

/// The finding `f`, the `idx`-th of its commit.
pub fn print_finding(idx: usize, f: &Value, color: bool) -> (r: Page)
    ensures
        r@ == finding_lines(idx as int, json(*f), color),
{
    let mut page = Page::new();
    page.blank_line();
    page.append(show_problem(idx, f, color));
    page.append(show_voters(f, color));
    page.append(show_explanation(f, color));
    page
}

/// Whether there is a commit to report on: one that was not only a dry run.
pub open spec fn reportable(cs: Seq<JsonTree>) -> bool {
    exists|i: int| 0 <= i < cs.len() && !(#[trigger] cs[i]).flag("dry_run"@)
}

/// Whether every commit to report on only has a test plan.
pub open spec fn only_plans(cs: Seq<JsonTree>) -> bool {
    forall|i: int|
        0 <= i < cs.len() && !(#[trigger] cs[i]).flag("dry_run"@) ==> cs[i].flag("plan"@)
}

/// The title of the findings section.
pub open spec fn findings_title(cs: Seq<JsonTree>, use_validated: bool) -> Seq<char> {
    if only_plans(cs) {
        "Test Plan"@
    } else if use_validated {
        "Findings (validated)"@
    } else {
        "Findings"@
    }
}

/// The first `n` of `ls`, in red and indented.
pub open spec fn red_lines(ls: Seq<Seq<char>>, n: int, color: bool) -> Seq<Seq<char>>
    decreases n,
{
    if n <= 0 {
        Seq::empty()
    } else {
        red_lines(ls, n - 1, color).push("    "@ + painted(ls[n - 1], color, Style::Red))
    }
}

/// The abbreviated hash of a commit as it is shown.
pub open spec fn shown_sha(c: JsonTree, color: bool) -> Seq<char> {
    painted_twice(sha12(c), color, Style::Bold, Style::Yellow)
}

/// What is shown of a commit whose review failed with the message `err`.
pub open spec fn failed_commit(c: JsonTree, err: Seq<char>, color: bool) -> Seq<Seq<char>> {
    let head = "  "@ + shown_sha(c, color) + "  "@ + painted_twice(
        "(review failed)"@,
        color,
        Style::Bold,
        Style::Red,
    );
    seq![
        match subject(c) {
            Some(s) => head + "  "@ + s,
            None => head,
        },
    ] + red_lines(lines(err), lines(err).len() as int, color) + seq![Seq::<char>::empty()]
}

/// How many findings there are, or that there is only a plan.
pub open spec fn finding_status(n: nat, plan_only: bool) -> Seq<char> {
    if plan_only {
        "(plan only)"@
    } else {
        "("@ + decimal(n) + " finding"@ + (if n == 1 {
            ""@
        } else {
            "s"@
        }) + ")"@
    }
}

/// The first `n` of the findings `fs`.
pub open spec fn findings_upto(fs: Seq<JsonTree>, n: int, color: bool) -> Seq<Seq<char>>
    decreases n,
{
    if n <= 0 {
        Seq::empty()
    } else {
        findings_upto(fs, n - 1, color) + finding_lines(n, fs[n - 1], color)
    }
}

/// The findings of a commit, or that there are none.
pub open spec fn commit_findings(fs: Option<Seq<JsonTree>>, plan_only: bool, color: bool) -> Seq<
    Seq<char>,
> {
    match fs {
        Some(a) => if a.len() > 0 {
            findings_upto(a, a.len() as int, color)
        } else if plan_only {
            Seq::empty()
        } else {
            seq!["    "@ + painted("(none)"@, color, Style::Dimmed)]
        },
        None => seq!["    "@ + painted("(missing findings array)"@, color, Style::Red)],
    }
}

/// What is shown of a commit that was reviewed.
pub open spec fn reviewed_commit(c: JsonTree, use_validated: bool, color: bool) -> Seq<Seq<char>> {
    let fs = effective_findings(c, use_validated);
    let plan_only = c.flag("plan"@);
    let n: nat = match fs {
        Some(a) => a.len(),
        None => 0,
    };
    let head = "  "@ + shown_sha(c, color) + "  "@ + painted(
        finding_status(n, plan_only),
        color,
        Style::Dimmed,
    );
    seq![
        match subject(c) {
            Some(s) => head + "  "@ + painted(s, color, Style::BrightWhite),
            None => head,
        },
    ] + (if bare_plan(c) {
        plan_only_lines(c, color)
    } else {
        test_summary_lines(c, color)
    }) + commit_findings(fs, plan_only, color) + seq![
        Seq::<char>::empty(),
    ]
}

/// What is shown of a commit in the findings section.
pub open spec fn commit_section(c: JsonTree, use_validated: bool, color: bool) -> Seq<Seq<char>> {
    if c.flag("dry_run"@) {
        Seq::empty()
    } else {
        match c.text("error"@) {
            Some(err) => failed_commit(c, err, color),
            None => reviewed_commit(c, use_validated, color),
        }
    }
}

/// The heading of the findings section and its first `n` commits.
pub open spec fn section_upto(cs: Seq<JsonTree>, n: int, use_validated: bool, color: bool) -> Seq<
    Seq<char>,
>
    decreases n,
{
    if n <= 0 {
        section_title_lines(findings_title(cs, use_validated), color)
    } else {
        section_upto(cs, n - 1, use_validated, color) + commit_section(
            cs[n - 1],
            use_validated,
            color,
        )
    }
}

/// The findings section; nothing where there is no commit to report on.
pub open spec fn findings_block(cs: Seq<JsonTree>, use_validated: bool, color: bool) -> Seq<
    Seq<char>,
> {
    if reportable(cs) {
        section_upto(cs, cs.len() as int, use_validated, color) + subsep_lines(color)
    } else {
        Seq::empty()
    }
}

/// Whether the hash of every commit that the findings section shows can be cut.
pub open spec fn findings_shas_divide(cs: Seq<JsonTree>) -> bool {
    forall|i: int|
        0 <= i < cs.len() && !(#[trigger] cs[i]).flag("dry_run"@) ==> sha_divides(cs[i])
}

fn show_failed_commit(c: &Value, err: &str, color: bool) -> (r: Page)
    requires
        sha_divides(json(*c)),
    ensures
        r@ == failed_commit(json(*c), err@, color),
{
    let mut page = Page::new();
    let head = String::from_str("  ").concat(
        paint_twice(short_sha(c).as_str(), color, Style::Bold, Style::Yellow).as_str(),
    ).concat("  ").concat(
        paint_twice("(review failed)", color, Style::Bold, Style::Red).as_str(),
    );
    match commit_subject(c) {
        Some(s) => page.line(head.concat("  ").concat(s.as_str())),
        None => page.line(head),
    }
    let ls = split_lines(err);
    let mut body = Page::new();
    let mut i: usize = 0;
    while i < ls.len()
        invariant
            i <= ls@.len(),
            body@ == red_lines(texts(ls@), i as int, color),
        decreases ls@.len() - i,
    {
        body.line(
            String::from_str("    ").concat(paint(ls[i].as_str(), color, Style::Red).as_str()),
        );
        i = i + 1;
    }
    page.append(body);
    page.blank_line();
    page
}

fn show_status(n: usize, plan_only: bool) -> (r: String)
    ensures
        r@ == finding_status(n as nat, plan_only),
{
    if plan_only {
        String::from_str("(plan only)")
    } else {
        String::from_str("(").concat(decimal_text(n as u64).as_str()).concat(" finding").concat(
            if n == 1 {
                ""
            } else {
                "s"
            },
        ).concat(")")
    }
}

fn show_findings(findings: Option<&Vec<Value>>, plan_only: bool, color: bool) -> (r: Page)
    ensures
        r@ == commit_findings(held_all(findings), plan_only, color),
{
    let mut page = Page::new();
    match findings {
        Some(arr) => {
            if arr.len() == 0 {
                if !plan_only {
                    page.line(
                        String::from_str("    ").concat(
                            paint("(none)", color, Style::Dimmed).as_str(),
                        ),
                    );
                }
            } else {
                let mut i: usize = 0;
                while i < arr.len()
                    invariant
                        i <= arr@.len(),
                        page@ == findings_upto(trees(arr@), i as int, color),
                    decreases arr@.len() - i,
                {
                    page.append(print_finding(i + 1, &arr[i], color));
                    i = i + 1;
                }
            }
        },
        None => {
            page.line(
                String::from_str("    ").concat(
                    paint("(missing findings array)", color, Style::Red).as_str(),
                ),
            );
        },
    }
    page
}

fn show_reviewed_commit(c: &Value, use_validated: bool, color: bool) -> (r: Page)
    requires
        sha_divides(json(*c)),
    ensures
        r@ == reviewed_commit(json(*c), use_validated, color),
{
    let mut page = Page::new();
    let findings = commit_effective_findings(c, use_validated);
    let n: usize = match findings {
        Some(a) => a.len(),
        None => 0,
    };
    let plan_only = flag(c, "plan");
    let head = String::from_str("  ").concat(
        paint_twice(short_sha(c).as_str(), color, Style::Bold, Style::Yellow).as_str(),
    ).concat("  ").concat(
        paint(show_status(n, plan_only).as_str(), color, Style::Dimmed).as_str(),
    );
    match commit_subject(c) {
        Some(s) => page.line(
            head.concat("  ").concat(paint(s.as_str(), color, Style::BrightWhite).as_str()),
        ),
        None => page.line(head),
    }
    if has_bare_plan(c) {
        page.append(print_plan_only(c, color));
    } else {
        page.append(print_test_summary(c, color));
    }
    page.append(show_findings(findings, plan_only, color));
    page.blank_line();
    page
}

/// The findings section for `commits`.
pub fn print_findings_block(commits: &Vec<&Value>, use_validated: bool, color: bool) -> (r: Page)
    requires
        findings_shas_divide(trees_at(commits@)),
    ensures
        r@ == findings_block(trees_at(commits@), use_validated, color),
{
    let ghost cs = trees_at(commits@);
    let mut any = false;
    let mut all_plan_only = true;
    let mut i: usize = 0;
    while i < commits.len()
        invariant
            i <= commits@.len(),
            cs == trees_at(commits@),
            any == exists|j: int| 0 <= j < i && !(#[trigger] cs[j]).flag("dry_run"@),
            all_plan_only == forall|j: int|
                0 <= j < i && !(#[trigger] cs[j]).flag("dry_run"@) ==> cs[j].flag("plan"@),
        decreases commits@.len() - i,
    {
        let c = commits[i];
        assert(cs[i as int] == json(*c));
        if !flag(c, "dry_run") {
            any = true;
            if !flag(c, "plan") {
                all_plan_only = false;
            }
        }
        i = i + 1;
    }
    if !any {
        return Page::new();
    }
    let title = if all_plan_only {
        "Test Plan"
    } else if use_validated {
        "Findings (validated)"
    } else {
        "Findings"
    };
    let mut page = section_title(title, color);
    let mut i: usize = 0;
    while i < commits.len()
        invariant
            i <= commits@.len(),
            cs == trees_at(commits@),
            findings_shas_divide(cs),
            page@ == section_upto(cs, i as int, use_validated, color),
        decreases commits@.len() - i,
    {
        let c = commits[i];
        assert(cs[i as int] == json(*c));
        let section = if flag(c, "dry_run") {
            Page::new()
        } else {
            match text(c, "error") {
                Some(err) => show_failed_commit(c, err, color),
                None => show_reviewed_commit(c, use_validated, color),
            }
        };
        page.append(section);
        i = i + 1;
    }
    page.append(subsep(color));
    page
}

} // verus!
