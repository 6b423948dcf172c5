//! What the findings section shows of which finding and which commit.

use crate::commit::{effective_findings, sha12, subject};
use crate::findings::{
    commit_findings, commit_section, dimmed_lines, explanation_upto, finding_lines, finding_status,
    finding_width, findings_block, findings_upto, first_line, only_plans, prefix_len, problem_lines,
    problem_upto, red_lines, reportable, room, section_upto, shown_explanation, shown_problem,
    shown_tag, shown_voters, strings,
};
use crate::format::{section_title_lines, subsep_lines};
use crate::json::JsonTree;
use crate::plan::{bare_plan, plan_only_lines, test_summary_lines};
use crate::style::{painted, painted_twice, Style};
use crate::text::{decimal, joined, lines, white_space};
use crate::text_laws::trimming_keeps_the_words;
use crate::wrap::{wrapped, wrapped_body};
use crate::wrap_laws::{
    all_solid, lemma_solid_concat, solid, wrapped_bodies_fit_and_keep_the_text,
};
use vstd::prelude::*;

verus! {

/// A severity is shown in brackets: critical and high ones bold in two reds,
/// medium ones yellow, low ones green, and any other dimmed.
pub proof fn severities_have_their_colours(s: Seq<char>, color: bool)
    ensures
        ({
            let tag = "["@ + s + "]"@;
            &&& s == "Critical"@ ==> shown_tag(s, color) == painted_twice(
                tag,
                color,
                Style::Bold,
                Style::BrightRed,
            )
            &&& s == "High"@ ==> shown_tag(s, color) == painted_twice(
                tag,
                color,
                Style::Bold,
                Style::Red,
            )
            &&& s == "Medium"@ ==> shown_tag(s, color) == painted(tag, color, Style::Yellow)
            &&& s == "Low"@ ==> shown_tag(s, color) == painted(tag, color, Style::Green)
            &&& s != "Critical"@ && s != "High"@ && s != "Medium"@ && s != "Low"@ ==> shown_tag(
                s,
                color,
            ) == painted(tag, color, Style::Dimmed)
        }),
{
    reveal_strlit("Critical");
    reveal_strlit("High");
    reveal_strlit("Medium");
    reveal_strlit("Low");
    assert("Critical"@.len() == 8);
    assert("High"@.len() == 4);
    assert("Medium"@.len() == 6);
    assert("Low"@.len() == 3);
}

/// What stands in front of the first line of a finding: its number and its
/// severity.
pub open spec fn finding_head(idx: nat, sev: Seq<char>, color: bool) -> Seq<char> {
    "    "@ + painted_twice(decimal(idx) + "."@, color, Style::Bold, Style::Dimmed) + "  "@
        + shown_tag(sev, color) + " "@
}

/// A finding shows its text behind its number and its severity. The text is
/// wrapped to 100 characters: the first line to what number and severity leave
/// of it, at least one character, and the others to what their indent of nine
/// characters leaves. A text without words stands as it is.
pub proof fn findings_show_number_severity_and_text(
    idx: nat,
    f: JsonTree,
    text: Seq<char>,
    sev: Seq<char>,
    color: bool,
)
    requires
        f.text("problem"@) == Some(text) || (f.text("problem"@) is None && text
            == "(no problem text)"@),
        f.text("severity"@) == Some(sev) || (f.text("severity"@) is None && sev == "?"@),
    ensures
        ({
            let taken = decimal(idx).len() + sev.len() + 10;
            let left: nat = if taken < 100 {
                (100 - taken) as nat
            } else {
                1
            };
            let ls = wrapped_body(text, left, 91);
            &&& ls.len() == 0 ==> shown_problem(idx as int, f, color) == seq![
                finding_head(idx, sev, color) + painted(text, color, Style::BrightWhite),
            ]
            &&& ls.len() > 0 ==> shown_problem(idx as int, f, color) == Seq::new(
                ls.len(),
                |i: int|
                    (if i == 0 {
                        finding_head(idx, sev, color)
                    } else {
                        "         "@
                    }) + painted(ls[i], color, Style::BrightWhite),
            )
        }),
{
    reveal_strlit(".");
    reveal_strlit("[");
    reveal_strlit("]");
    let ls = problem_lines(idx as int, f);
    lemma_problem(idx, f, sev, ls, ls.len(), color);
}

proof fn lemma_problem(
    idx: nat,
    f: JsonTree,
    sev: Seq<char>,
    ls: Seq<Seq<char>>,
    n: nat,
    color: bool,
)
    requires
        f.text("severity"@) == Some(sev) || (f.text("severity"@) is None && sev == "?"@),
    ensures
        problem_upto(idx as int, f, ls, n as int, color) == Seq::new(
            n,
            |i: int|
                (if i == 0 {
                    finding_head(idx, sev, color)
                } else {
                    "         "@
                }) + painted(ls[i], color, Style::BrightWhite),
        ),
        forall|s: Seq<char>| #[trigger]
            first_line(idx as int, f, s, color) == finding_head(idx, sev, color) + painted(
                s,
                color,
                Style::BrightWhite,
            ),
    decreases n,
{
    if n > 0 {
        lemma_problem(idx, f, sev, ls, (n - 1) as nat, color);
    }
    assert(problem_upto(idx as int, f, ls, n as int, color) =~= Seq::new(
        n,
        |i: int|
            (if i == 0 {
                finding_head(idx, sev, color)
            } else {
                "         "@
            }) + painted(ls[i], color, Style::BrightWhite),
    ));
}

proof fn lemma_blank_is_not_solid(s: Seq<char>)
    requires
        forall|i: int| 0 <= i < s.len() ==> white_space(#[trigger] s[i]),
    ensures
        solid(s) == Seq::<char>::empty(),
    decreases s.len(),
{
    if s.len() > 0 {
        lemma_blank_is_not_solid(s.drop_last());
    }
}

proof fn lemma_problem_solid(
    idx: nat,
    f: JsonTree,
    sev: Seq<char>,
    ls: Seq<Seq<char>>,
    n: nat,
)
    requires
        f.text("severity"@) == Some(sev) || (f.text("severity"@) is None && sev == "?"@),
        0 < n <= ls.len(),
    ensures
        all_solid(problem_upto(idx as int, f, ls, n as int, false)) == solid(
            finding_head(idx, sev, false),
        ) + all_solid(ls.take(n as int)),
    decreases n,
{
    let r = problem_upto(idx as int, f, ls, n as int, false);
    let head = finding_head(idx, sev, false);
    let indent = "         "@;
    lemma_problem(idx, f, sev, ls, n, false);
    reveal_strlit("         ");
    lemma_blank_is_not_solid(indent);
    let before = r.drop_last();
    assert(ls.take(n as int).drop_last() =~= ls.take(n - 1));
    assert(ls.take(n as int).last() == ls[n - 1]);
    if n == 1 {
        assert(r.last() == head + ls[0]);
        lemma_solid_concat(head, ls[0]);
        assert(before =~= Seq::<Seq<char>>::empty());
        assert(ls.take(0) =~= Seq::<Seq<char>>::empty());
        assert(all_solid(before) =~= Seq::<char>::empty());
        assert(all_solid(ls.take(0)) =~= Seq::<char>::empty());
        assert(all_solid(r) =~= solid(head) + all_solid(ls.take(1)));
    } else {
        lemma_problem_solid(idx, f, sev, ls, (n - 1) as nat);
        lemma_problem(idx, f, sev, ls, (n - 1) as nat, false);
        assert(before =~= problem_upto(idx as int, f, ls, n - 1, false));
        assert(r.last() == indent + ls[n - 1]);
        lemma_solid_concat(indent, ls[n - 1]);
        assert(solid(r.last()) =~= solid(ls[n - 1]));
        assert(all_solid(r) =~= solid(head) + all_solid(ls.take(n as int)));
    }
}

/// The lines of a finding hold its number, its severity and its text whole: but
/// for white space, they read as one behind the other.
pub proof fn findings_hold_their_text(idx: nat, f: JsonTree, text: Seq<char>, sev: Seq<char>)
    requires
        f.text("problem"@) == Some(text),
        f.text("severity"@) == Some(sev),
    ensures
        all_solid(shown_problem(idx as int, f, false)) == solid(
            decimal(idx) + "."@ + "["@ + sev + "]"@,
        ) + solid(text),
{
    let ls = problem_lines(idx as int, f);
    let head = finding_head(idx, sev, false);
    let r = shown_problem(idx as int, f, false);
    let num = decimal(idx) + "."@;
    let tag = "["@ + sev + "]"@;
    severities_have_their_colours(sev, false);
    assert(shown_tag(sev, false) == tag);
    reveal_strlit("    ");
    reveal_strlit("  ");
    reveal_strlit(" ");
    lemma_blank_is_not_solid("    "@);
    lemma_blank_is_not_solid("  "@);
    lemma_blank_is_not_solid(" "@);
    lemma_solid_concat("    "@, num);
    lemma_solid_concat("    "@ + num, "  "@);
    lemma_solid_concat("    "@ + num + "  "@, tag);
    lemma_solid_concat("    "@ + num + "  "@ + tag, " "@);
    lemma_solid_concat(num, tag);
    assert(num + tag =~= decimal(idx) + "."@ + "["@ + sev + "]"@);
    assert(solid(head) =~= solid(num + tag));
    if ls.len() == 0 {
        lemma_problem(idx, f, sev, ls, 0, false);
        lemma_solid_concat(head, text);
        assert(r =~= seq![head + text]);
        assert(r.drop_last() =~= Seq::<Seq<char>>::empty());
        assert(all_solid(r.drop_last()) =~= Seq::<char>::empty());
        assert(r.last() == head + text);
        assert(all_solid(r) =~= solid(head) + solid(text));
    } else {
        lemma_problem_solid(idx, f, sev, ls, ls.len());
        assert(ls.take(ls.len() as int) =~= ls);
        wrapped_bodies_fit_and_keep_the_text(
            text,
            room(100, prefix_len(idx as int, f) as int),
            finding_width(),
        );
    }
}

/// Who voted for a finding is shown on one line, the names in order with commas
/// between; no line is shown where there is no name. Of the voters, those that
/// are texts count.
pub proof fn voters_are_named_in_order(
    f: JsonTree,
    vs: Seq<JsonTree>,
    v: JsonTree,
    s: Seq<char>,
    color: bool,
)
    ensures
        f.items("voters"@) is None ==> shown_voters(f, color).len() == 0,
        f.items("voters"@) == Some(vs) ==> {
            let names = strings(vs, vs.len() as int);
            &&& names.len() == 0 ==> shown_voters(f, color).len() == 0
            &&& names.len() > 0 ==> shown_voters(f, color) == seq![
                "         "@ + painted_twice(
                    "(voters: "@ + joined(names, names.len() as int, ", "@) + ")"@,
                    color,
                    Style::Dimmed,
                    Style::Italic,
                ),
            ]
        },
        strings(Seq::empty(), 0).len() == 0,
        v == JsonTree::Text(s) ==> strings(vs.push(v), 1 + vs.len() as int) == strings(
            vs,
            vs.len() as int,
        ).push(s),
        !(v is Text) ==> strings(vs.push(v), 1 + vs.len() as int) == strings(vs, vs.len() as int),
{
    lemma_strings_prefix(vs, v, vs.len() as int);
}

proof fn lemma_strings_prefix(vs: Seq<JsonTree>, v: JsonTree, n: int)
    requires
        0 <= n <= vs.len(),
    ensures
        strings(vs.push(v), n) == strings(vs, n),
    decreases n,
{
    if n > 0 {
        lemma_strings_prefix(vs, v, n - 1);
    }
}

/// `line` wrapped to 91 characters, dimmed and indented.
pub open spec fn dimmed_block(line: Seq<char>, color: bool) -> Seq<Seq<char>> {
    Seq::new(
        wrapped(line, 91, 91).len(),
        |j: int| "         "@ + painted(wrapped(line, 91, 91)[j], color, Style::Dimmed),
    )
}

/// The explanation of a severity is shown line by line, each line wrapped on its
/// own to 91 characters, dimmed and indented by nine.
pub proof fn explanations_are_shown_line_by_line(f: JsonTree, s: Seq<char>, color: bool)
    ensures
        f.text("severity_explanation"@) is None ==> shown_explanation(f, color).len() == 0,
        f.text("severity_explanation"@) == Some(s) ==> shown_explanation(f, color) == Seq::new(
            lines(s).len(),
            |i: int| dimmed_block(lines(s)[i], color),
        ).flatten(),
{
    lemma_explanation(lines(s), lines(s).len(), color);
}

proof fn lemma_dimmed(ls: Seq<Seq<char>>, n: nat, color: bool)
    ensures
        dimmed_lines(ls, n as int, color) == Seq::new(
            n,
            |j: int| "         "@ + painted(ls[j], color, Style::Dimmed),
        ),
    decreases n,
{
    if n > 0 {
        lemma_dimmed(ls, (n - 1) as nat, color);
    }
    assert(dimmed_lines(ls, n as int, color) =~= Seq::new(
        n,
        |j: int| "         "@ + painted(ls[j], color, Style::Dimmed),
    ));
}

proof fn lemma_explanation(ls: Seq<Seq<char>>, n: nat, color: bool)
    ensures
        explanation_upto(ls, n as int, color) == Seq::new(
            n,
            |i: int| dimmed_block(ls[i], color),
        ).flatten(),
    decreases n,
{
    let block = |i: int| dimmed_block(ls[i], color);
    let all = Seq::new(n, block);
    if n == 0 {
        assert(all.flatten() =~= Seq::<Seq<char>>::empty());
    } else {
        let before = Seq::new((n - 1) as nat, block);
        lemma_explanation(ls, (n - 1) as nat, color);
        trimming_keeps_the_words(ls[n - 1]);
        lemma_dimmed(wrapped(ls[n - 1], 91, 91), wrapped(ls[n - 1], 91, 91).len(), color);
        assert(all =~= before.push(block(n - 1)));
        before.lemma_flatten_push(block(n - 1));
    }
}

/// A finding is an empty line, its text, who voted for it, and why it is that
/// severe.
pub proof fn findings_have_four_parts(idx: int, f: JsonTree, color: bool)
    ensures
        ({
            let a = shown_problem(idx, f, color).len() as int;
            let b = shown_voters(f, color).len() as int;
            let r = finding_lines(idx, f, color);
            &&& r.len() == 1 + a + b + shown_explanation(f, color).len()
            &&& r[0].len() == 0
            &&& r.subrange(1, 1 + a) == shown_problem(idx, f, color)
            &&& r.subrange(1 + a, 1 + a + b) == shown_voters(f, color)
            &&& r.skip(1 + a + b) == shown_explanation(f, color)
        }),
{
    let a = shown_problem(idx, f, color).len() as int;
    let b = shown_voters(f, color).len() as int;
    let r = finding_lines(idx, f, color);
    assert(r.subrange(1, 1 + a) =~= shown_problem(idx, f, color));
    assert(r.subrange(1 + a, 1 + a + b) =~= shown_voters(f, color));
    assert(r.skip(1 + a + b) =~= shown_explanation(f, color));
}

/// The findings of a commit are shown one behind the other, each under its own
/// number, counted from one.
pub proof fn every_finding_is_shown_under_its_number(fs: Seq<JsonTree>, color: bool)
    ensures
        findings_upto(fs, fs.len() as int, color) == Seq::new(
            fs.len(),
            |i: int| finding_lines(i + 1, fs[i], color),
        ).flatten(),
{
    lemma_findings(fs, fs.len(), color);
}

proof fn lemma_findings(fs: Seq<JsonTree>, n: nat, color: bool)
    ensures
        findings_upto(fs, n as int, color) == Seq::new(
            n,
            |i: int| finding_lines(i + 1, fs[i], color),
        ).flatten(),
    decreases n,
{
    let block = |i: int| finding_lines(i + 1, fs[i], color);
    let all = Seq::new(n, block);
    if n == 0 {
        assert(all.flatten() =~= Seq::<Seq<char>>::empty());
    } else {
        let before = Seq::new((n - 1) as nat, block);
        lemma_findings(fs, (n - 1) as nat, color);
        assert(all =~= before.push(block(n - 1)));
        before.lemma_flatten_push(block(n - 1));
    }
}

/// Two lists of findings that differ in the text of any one finding, by more
/// than white space, are shown differently.
pub proof fn no_finding_goes_unseen(
    fs: Seq<JsonTree>,
    gs: Seq<JsonTree>,
    i: int,
    p: Seq<char>,
    q: Seq<char>,
    sev: Seq<char>,
)
    requires
        fs.len() == gs.len(),
        0 <= i < fs.len(),
        forall|j: int| 0 <= j < fs.len() && j != i ==> #[trigger] fs[j] == gs[j],
        fs[i].text("severity"@) == Some(sev),
        gs[i].text("severity"@) == Some(sev),
        fs[i].get("voters"@) == gs[i].get("voters"@),
        fs[i].get("severity_explanation"@) == gs[i].get("severity_explanation"@),
        fs[i].text("problem"@) == Some(p),
        gs[i].text("problem"@) == Some(q),
        solid(p) != solid(q),
    ensures
        findings_upto(fs, fs.len() as int, false) != findings_upto(gs, gs.len() as int, false),
{
    lemma_unseen(fs, gs, i, fs.len() as int, p, q, sev);
}

proof fn lemma_unseen(
    fs: Seq<JsonTree>,
    gs: Seq<JsonTree>,
    i: int,
    n: int,
    p: Seq<char>,
    q: Seq<char>,
    sev: Seq<char>,
)
    requires
        fs.len() == gs.len(),
        0 <= i < n <= fs.len(),
        forall|j: int| 0 <= j < fs.len() && j != i ==> #[trigger] fs[j] == gs[j],
        fs[i].text("severity"@) == Some(sev),
        gs[i].text("severity"@) == Some(sev),
        fs[i].get("voters"@) == gs[i].get("voters"@),
        fs[i].get("severity_explanation"@) == gs[i].get("severity_explanation"@),
        fs[i].text("problem"@) == Some(p),
        gs[i].text("problem"@) == Some(q),
        solid(p) != solid(q),
    ensures
        findings_upto(fs, n, false) != findings_upto(gs, n, false),
    decreases n,
{
    let a = findings_upto(fs, n, false);
    let b = findings_upto(gs, n, false);
    if n > i + 1 {
        lemma_unseen(fs, gs, i, n - 1, p, q, sev);
        let x = findings_upto(fs, n - 1, false);
        let y = findings_upto(gs, n - 1, false);
        let same = finding_lines(n, fs[n - 1], false);
        assert(fs[n - 1] == gs[n - 1]);
        if a == b {
            assert(x.len() == y.len());
            assert(x =~= a.take(x.len() as int));
            assert(y =~= b.take(y.len() as int));
        }
    } else {
        lemma_same_findings(fs, gs, i);
        let x = findings_upto(fs, i, false);
        let fa = finding_lines(n, fs[i], false);
        let gb = finding_lines(n, gs[i], false);
        if a == b {
            assert(fa =~= a.skip(x.len() as int));
            assert(gb =~= b.skip(x.len() as int));
            let pa = shown_problem(n, fs[i], false);
            let pb = shown_problem(n, gs[i], false);
            findings_have_four_parts(n, fs[i], false);
            findings_have_four_parts(n, gs[i], false);
            assert(shown_voters(fs[i], false) == shown_voters(gs[i], false));
            assert(shown_explanation(fs[i], false) == shown_explanation(gs[i], false));
            assert(pa.len() == pb.len());
            assert(pa == pb);
            findings_hold_their_text(n as nat, fs[i], p, sev);
            findings_hold_their_text(n as nat, gs[i], q, sev);
            let h = solid(decimal(n as nat) + "."@ + "["@ + sev + "]"@);
            assert(solid(p) =~= (h + solid(p)).skip(h.len() as int));
            assert(solid(q) =~= (h + solid(q)).skip(h.len() as int));
        }
    }
}

proof fn lemma_same_findings(fs: Seq<JsonTree>, gs: Seq<JsonTree>, n: int)
    requires
        0 <= n <= fs.len(),
        forall|j: int| 0 <= j < n ==> #[trigger] fs[j] == gs[j],
    ensures
        findings_upto(fs, n, false) == findings_upto(gs, n, false),
    decreases n,
{
    if n > 0 {
        lemma_same_findings(fs, gs, n - 1);
        assert(fs[n - 1] == gs[n - 1]);
    }
}

/// The line that heads a commit: its hash, how it went, and its subject where it
/// has one.
pub open spec fn commit_heading(
    c: JsonTree,
    outcome: Seq<char>,
    shown_subject: Option<Seq<char>>,
    color: bool,
) -> Seq<char> {
    "  "@ + painted_twice(sha12(c), color, Style::Bold, Style::Yellow) + "  "@ + outcome + (
    match shown_subject {
        Some(s) => "  "@ + s,
        None => Seq::empty(),
    })
}

/// Nothing is shown of a dry run.
pub proof fn dry_runs_are_passed_over(c: JsonTree, use_validated: bool, color: bool)
    requires
        c.flag("dry_run"@),
    ensures
        commit_section(c, use_validated, color).len() == 0,
{
}

/// Of a commit whose review failed the lines of the error are shown in red
/// below its heading, and an empty line behind them.
pub proof fn failed_reviews_show_their_error(
    c: JsonTree,
    err: Seq<char>,
    use_validated: bool,
    color: bool,
)
    requires
        !c.flag("dry_run"@),
        c.text("error"@) == Some(err),
    ensures
        commit_section(c, use_validated, color) == seq![
            commit_heading(
                c,
                painted_twice("(review failed)"@, color, Style::Bold, Style::Red),
                subject(c),
                color,
            ),
        ] + Seq::new(
            lines(err).len(),
            |i: int| "    "@ + painted(lines(err)[i], color, Style::Red),
        ) + seq![Seq::<char>::empty()],
{
    lemma_red(lines(err), lines(err).len(), color);
    let outcome = painted_twice("(review failed)"@, color, Style::Bold, Style::Red);
    let head = "  "@ + painted_twice(sha12(c), color, Style::Bold, Style::Yellow) + "  "@ + outcome;
    match subject(c) {
        Some(s) => {
            assert(head + "  "@ + s =~= head + ("  "@ + s));
        },
        None => {
            assert(head + Seq::<char>::empty() =~= head);
        },
    }
}

proof fn lemma_red(ls: Seq<Seq<char>>, n: nat, color: bool)
    ensures
        red_lines(ls, n as int, color) == Seq::new(
            n,
            |i: int| "    "@ + painted(ls[i], color, Style::Red),
        ),
    decreases n,
{
    if n > 0 {
        lemma_red(ls, (n - 1) as nat, color);
    }
    assert(red_lines(ls, n as int, color) =~= Seq::new(
        n,
        |i: int| "    "@ + painted(ls[i], color, Style::Red),
    ));
}

/// The number of findings is stated in the singular for one and in the plural
/// for any other; of a plan it is not stated.
pub proof fn findings_are_counted(n: nat, plan_only: bool)
    ensures
        plan_only ==> finding_status(n, plan_only) == "(plan only)"@,
        !plan_only && n == 1 ==> finding_status(n, plan_only) == "(1 finding)"@,
        !plan_only && n != 1 ==> finding_status(n, plan_only) == "("@ + decimal(n) + " findings)"@,
{
    reveal_strlit("(");
    reveal_strlit(" finding");
    reveal_strlit("");
    reveal_strlit("s");
    reveal_strlit(")");
    reveal_strlit("(1 finding)");
    reveal_strlit(" findings)");
    if !plan_only {
        if n == 1 {
            assert(decimal(1) =~= seq!['1']);
            assert(finding_status(n, plan_only) =~= "(1 finding)"@);
        } else {
            assert(finding_status(n, plan_only) =~= "("@ + decimal(n) + " findings)"@);
        }
    }
}

/// Of a commit that was reviewed, its heading says how many findings there are;
/// what is known of its test follows, then its findings, or that there are none
/// or that they are missing, and an empty line.
pub proof fn reviewed_commits_show_test_and_findings(
    c: JsonTree,
    use_validated: bool,
    color: bool,
)
    requires
        !c.flag("dry_run"@),
        c.text("error"@) is None,
    ensures
        ({
            let fs = effective_findings(c, use_validated);
            let plan_only = c.flag("plan"@);
            let n: nat = match fs {
                Some(a) => a.len(),
                None => 0,
            };
            let shown_subject = match subject(c) {
                Some(s) => Some(painted(s, color, Style::BrightWhite)),
                None => None,
            };
            commit_section(c, use_validated, color) == seq![
                commit_heading(
                    c,
                    painted(finding_status(n, plan_only), color, Style::Dimmed),
                    shown_subject,
                    color,
                ),
            ] + (if bare_plan(c) {
                plan_only_lines(c, color)
            } else {
                test_summary_lines(c, color)
            }) + commit_findings(fs, plan_only, color) + seq![Seq::<char>::empty()]
        }),
{
    let fs = effective_findings(c, use_validated);
    let n: nat = match fs {
        Some(a) => a.len(),
        None => 0,
    };
    let outcome = painted(finding_status(n, c.flag("plan"@)), color, Style::Dimmed);
    let head = "  "@ + painted_twice(sha12(c), color, Style::Bold, Style::Yellow) + "  "@ + outcome;
    match subject(c) {
        Some(s) => {
            let shown = painted(s, color, Style::BrightWhite);
            assert(head + "  "@ + shown =~= head + ("  "@ + shown));
        },
        None => {
            assert(head + Seq::<char>::empty() =~= head);
        },
    }
}

/// The findings of a commit are all shown; an empty list is said to be empty
/// unless there is only a plan, and a missing list is said to be missing.
pub proof fn missing_findings_are_told_from_none(
    fs: Seq<JsonTree>,
    plan_only: bool,
    color: bool,
)
    ensures
        commit_findings(None, plan_only, color) == seq![
            "    "@ + painted("(missing findings array)"@, color, Style::Red),
        ],
        fs.len() == 0 && plan_only ==> commit_findings(Some(fs), plan_only, color).len() == 0,
        fs.len() == 0 && !plan_only ==> commit_findings(Some(fs), plan_only, color) == seq![
            "    "@ + painted("(none)"@, color, Style::Dimmed),
        ],
        fs.len() > 0 ==> commit_findings(Some(fs), plan_only, color) == Seq::new(
            fs.len(),
            |i: int| finding_lines(i + 1, fs[i], color),
        ).flatten(),
{
    every_finding_is_shown_under_its_number(fs, color);
}

/// The findings section shows, below its title, every commit in order. It is
/// titled as a test plan if every commit that is no dry run only has a plan, and
/// else by whether validated findings are shown. Where all commits are dry runs
/// there is no section.
pub proof fn findings_sections_show_every_commit(
    cs: Seq<JsonTree>,
    use_validated: bool,
    color: bool,
)
    ensures
        (forall|i: int| 0 <= i < cs.len() ==> (#[trigger] cs[i]).flag("dry_run"@))
            ==> findings_block(cs, use_validated, color).len() == 0,
        (exists|i: int| 0 <= i < cs.len() && !(#[trigger] cs[i]).flag("dry_run"@)) ==> {
            let plans = forall|i: int|
                0 <= i < cs.len() ==> (#[trigger] cs[i]).flag("dry_run"@) || cs[i].flag("plan"@);
            let title = if plans {
                "Test Plan"@
            } else if use_validated {
                "Findings (validated)"@
            } else {
                "Findings"@
            };
            findings_block(cs, use_validated, color) == section_title_lines(title, color)
                + Seq::new(
                cs.len(),
                |i: int| commit_section(cs[i], use_validated, color),
            ).flatten() + subsep_lines(color)
        },
{
    lemma_sections(cs, cs.len(), use_validated, color);
    let plans = forall|i: int|
        0 <= i < cs.len() ==> (#[trigger] cs[i]).flag("dry_run"@) || cs[i].flag("plan"@);
    assert(plans == only_plans(cs));
    assert(reportable(cs) == exists|i: int|
        0 <= i < cs.len() && !(#[trigger] cs[i]).flag("dry_run"@));
}

proof fn lemma_sections(cs: Seq<JsonTree>, n: nat, use_validated: bool, color: bool)
    ensures
        section_upto(cs, n as int, use_validated, color) == section_upto(
            cs,
            0,
            use_validated,
            color,
        ) + Seq::new(n, |i: int| commit_section(cs[i], use_validated, color)).flatten(),
    decreases n,
{
    let block = |i: int| commit_section(cs[i], use_validated, color);
    let all = Seq::new(n, block);
    let head = section_upto(cs, 0, use_validated, color);
    if n == 0 {
        assert(head + all.flatten() =~= head);
    } else {
        let before = Seq::new((n - 1) as nat, block);
        lemma_sections(cs, (n - 1) as nat, use_validated, color);
        assert(all =~= before.push(block(n - 1)));
        before.lemma_flatten_push(block(n - 1));
        assert(section_upto(cs, n as int, use_validated, color) =~= head + all.flatten());
    }
}

} // verus!
