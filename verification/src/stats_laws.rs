//! What the usage section shows of the run, of the validation and of each
//! commit.

use crate::commit::{sha_divides, title};
use crate::format::{section_title_lines, subsep_lines, wall_text};
use crate::json::JsonTree;
use crate::stats::{
    any_stats, apply_stats, commit_line, commit_stats, commit_stats_fit, commit_stats_upto,
    dry_run_line, has_stats, member_shares_fit, run_part, stats_block, stats_fit, steps_part,
    validation_heading, validation_part, wall_line,
};
use crate::style::{painted, painted_twice, Style};
use crate::text::decimal;
use crate::usage::{shares_fit, step_table, usage_card};
use vstd::prelude::*;

verus! {

/// The time that something took is shown if it is known.
pub proof fn times_are_shown_where_known(t: JsonTree, ms: u64, color: bool)
    ensures
        t.uint("wall_ms"@) is None ==> wall_line(t, color).len() == 0,
        t.uint("wall_ms"@) == Some(ms) ==> wall_line(t, color) == seq![
            "    "@ + painted_twice("Wall time:"@, color, Style::Bold, Style::Dimmed) + " "@
                + painted(wall_text(ms as nat), color, Style::BrightCyan),
        ],
{
}

/// The steps that something took are shown in a table below a heading if there
/// are any.
pub proof fn steps_are_shown_where_there_are_any(
    t: JsonTree,
    steps: Seq<JsonTree>,
    color: bool,
    short: spec_fn(u64) -> Seq<char>,
)
    ensures
        t.items("usage_steps"@) is None ==> steps_part(t, color, short).len() == 0,
        t.items("usage_steps"@) == Some(steps) && steps.len() == 0 ==> steps_part(
            t,
            color,
            short,
        ).len() == 0,
        t.items("usage_steps"@) == Some(steps) && steps.len() > 0 ==> {
            let r = steps_part(t, color, short);
            &&& r[0] == "    "@ + painted_twice("API steps"@, color, Style::Bold, Style::Dimmed)
            &&& r.skip(1) == step_table(steps, "      "@, color, short)
        },
{
    if t.items("usage_steps"@) == Some(steps) && steps.len() > 0 {
        assert(steps_part(t, color, short).skip(1) =~= step_table(steps, "      "@, color, short));
    }
}

/// The usage of the run is shown below its name if it is known: its figures,
/// and how long the run took.
pub proof fn run_usage_is_shown_where_known(
    out: JsonTree,
    u: JsonTree,
    name: Seq<char>,
    color: bool,
    short: spec_fn(u64) -> Seq<char>,
)
    ensures
        out.get("usage_summary"@) is None ==> run_part(out, name, color, short).len() == 0,
        out.get("usage_summary"@) == Some(u) ==> {
            let r = run_part(out, name, color, short);
            let n = wall_line(out, color).len() as int;
            &&& r.len() == 3 + n
            &&& r[0] == "  "@ + painted_twice(name, color, Style::Bold, Style::BrightGreen)
            &&& r[1] == usage_card(u, "    "@, color, short)
            &&& r.subrange(2, 2 + n) == wall_line(out, color)
            &&& r.last().len() == 0
        },
{
    if out.get("usage_summary"@) == Some(u) {
        let r = run_part(out, name, color, short);
        let n = wall_line(out, color).len() as int;
        assert(r.subrange(2, 2 + n) =~= wall_line(out, color));
    }
}

/// The usage of the validation is shown if it is known: the model if it is
/// named, the figures, the steps, and how long it took.
pub proof fn validation_usage_is_shown_where_known(
    out: JsonTree,
    v: JsonTree,
    model: Seq<char>,
    color: bool,
    short: spec_fn(u64) -> Seq<char>,
)
    ensures
        out.get("validation_usage"@) is None ==> validation_part(out, color, short).len() == 0,
        out.get("validation_usage"@) == Some(v) ==> {
            let r = validation_part(out, color, short);
            let m = steps_part(v, color, short).len() as int;
            let n = wall_line(v, color).len() as int;
            &&& r.len() == 3 + m + n
            &&& r[0] == "  "@ + painted_twice(
                validation_heading(v),
                color,
                Style::Bold,
                Style::BrightCyan,
            )
            &&& r[1] == usage_card(v, "    "@, color, short)
            &&& r.subrange(2, 2 + m) == steps_part(v, color, short)
            &&& r.subrange(2 + m, 2 + m + n) == wall_line(v, color)
            &&& r.last().len() == 0
        },
        v.text("model"@) == Some(model) && model.len() > 0 ==> validation_heading(v)
            == "Validation ("@ + model + ")"@,
        v.text("model"@) == Some(model) && model.len() == 0 ==> validation_heading(v)
            == "Validation"@,
        v.text("model"@) is None ==> validation_heading(v) == "Validation"@,
{
    if out.get("validation_usage"@) == Some(v) {
        let r = validation_part(out, color, short);
        let m = steps_part(v, color, short).len() as int;
        let n = wall_line(v, color).len() as int;
        assert(r.subrange(2, 2 + m) =~= steps_part(v, color, short));
        assert(r.subrange(2 + m, 2 + m + n) =~= wall_line(v, color));
    }
}

/// The usage section speaks of a commit if it is a dry run, if its review
/// failed, or if figures or steps are stated of it.
pub proof fn usage_sections_speak_of_these_commits(c: JsonTree)
    ensures
        has_stats(c) <==> {
            ||| c.flag("dry_run"@)
            ||| c.text("error"@) is Some
            ||| c.get("usage"@) is Some
            ||| c.get("usage_steps"@) is Some
        },
        !has_stats(c) ==> forall|color: bool, short: spec_fn(u64) -> Seq<char>|
            (#[trigger] commit_stats(c, color, short)).len() == 0,
{
}

/// A commit is named by its title.
pub proof fn commits_are_named_by_their_title(c: JsonTree, color: bool)
    ensures
        commit_line(c, color) == "  "@ + painted_twice("Commit"@, color, Style::Bold, Style::Dimmed)
            + " "@ + painted(title(c), color, Style::Yellow),
{
}

/// Of a dry run it is said how much would have been sent, if that is stated,
/// zero for what is not; and else that nothing was called.
pub proof fn dry_runs_state_what_would_have_been_sent(
    c: JsonTree,
    reference: u64,
    patch: u64,
    color: bool,
    short: spec_fn(u64) -> Seq<char>,
)
    requires
        c.flag("dry_run"@),
        c.uint("reference_chars"@) == Some(reference) || (c.uint("reference_chars"@) is None
            && reference == 0),
        c.uint("patch_chars"@) == Some(patch) || (c.uint("patch_chars"@) is None && patch == 0),
    ensures
        commit_stats(c, color, short) == seq![
            commit_line(c, color),
            dry_run_line(c, color),
            Seq::<char>::empty(),
        ],
        ({
            let head = "    "@ + painted_twice("(dry run)"@, color, Style::Italic, Style::Dimmed);
            &&& c.get("reference_chars"@) is None && c.get("patch_chars"@) is None ==> dry_run_line(
                c,
                color,
            ) == head + "  (no API call, no `vng` invocation)"@
            &&& c.get("reference_chars"@) is Some || c.get("patch_chars"@) is Some ==> dry_run_line(
                c,
                color,
            ) == head + "  reference_chars="@ + painted(
                decimal(reference as nat),
                color,
                Style::BrightWhite,
            ) + "  patch_chars="@ + painted(decimal(patch as nat), color, Style::BrightWhite)
        }),
{
}

/// Of a commit whose review failed only that is said.
pub proof fn failed_reviews_refer_to_the_findings(
    c: JsonTree,
    color: bool,
    short: spec_fn(u64) -> Seq<char>,
)
    requires
        !c.flag("dry_run"@),
        c.text("error"@) is Some,
    ensures
        commit_stats(c, color, short) == seq![
            commit_line(c, color),
            "    "@ + painted("(review failed — see Findings for details)"@, color, Style::Red),
            Seq::<char>::empty(),
        ],
{
}

/// Of a commit that was reviewed all that is stated is shown, in this order: its
/// figures, the table of its steps, and how long it took.
pub proof fn reviewed_commits_show_figures_steps_and_time(
    c: JsonTree,
    color: bool,
    short: spec_fn(u64) -> Seq<char>,
)
    requires
        !c.flag("dry_run"@),
        c.text("error"@) is None,
        c.get("usage"@) is Some || c.get("usage_steps"@) is Some,
    ensures
        ({
            let r = commit_stats(c, color, short);
            let k: int = if c.get("usage"@) is Some {
                1
            } else {
                0
            };
            let m = steps_part(c, color, short).len() as int;
            let n = wall_line(c, color).len() as int;
            &&& r.len() == 2 + k + m + n
            &&& r[0] == commit_line(c, color)
            &&& c.get("usage"@) matches Some(u) ==> r[1] == usage_card(u, "    "@, color, short)
            &&& r.subrange(1 + k, 1 + k + m) == steps_part(c, color, short)
            &&& r.subrange(1 + k + m, 1 + k + m + n) == wall_line(c, color)
            &&& r.last().len() == 0
        }),
{
    let r = commit_stats(c, color, short);
    let k: int = if c.get("usage"@) is Some {
        1
    } else {
        0
    };
    let m = steps_part(c, color, short).len() as int;
    let n = wall_line(c, color).len() as int;
    assert(r.subrange(1 + k, 1 + k + m) =~= steps_part(c, color, short));
    assert(r.subrange(1 + k + m, 1 + k + m + n) =~= wall_line(c, color));
}

/// Where a commit that was reviewed states steps, their table is a run of lines
/// of what is shown of it, right behind its heading.
pub proof fn steps_of_a_commit_are_shown(
    c: JsonTree,
    steps: Seq<JsonTree>,
    color: bool,
    short: spec_fn(u64) -> Seq<char>,
) -> (at: int)
    requires
        !c.flag("dry_run"@),
        c.text("error"@) is None,
        c.items("usage_steps"@) == Some(steps),
        steps.len() > 0,
    ensures
        0 < at,
        at + 1 + step_table(steps, "      "@, color, short).len() <= commit_stats(
            c,
            color,
            short,
        ).len(),
        commit_stats(c, color, short)[at] == "    "@ + painted_twice(
            "API steps"@,
            color,
            Style::Bold,
            Style::Dimmed,
        ),
        commit_stats(c, color, short).subrange(
            at + 1,
            at + 1 + step_table(steps, "      "@, color, short).len(),
        ) == step_table(steps, "      "@, color, short),
{
    let r = commit_stats(c, color, short);
    let part = steps_part(c, color, short);
    let table = step_table(steps, "      "@, color, short);
    let at: int = if c.get("usage"@) is Some {
        2
    } else {
        1
    };
    steps_are_shown_where_there_are_any(c, steps, color, short);
    reviewed_commits_show_figures_steps_and_time(c, color, short);
    assert(r[at] == r.subrange(at, at + part.len())[0]);
    assert(r.subrange(at + 1, at + 1 + table.len()) =~= r.subrange(at, at + part.len()).skip(1));
    at
}

/// The usage section of a report shows the run, the validation, and every
/// commit in turn. That there is no usage is said if neither the run's is known
/// nor anything is to be said of a commit.
pub proof fn usage_sections_show_run_validation_and_commits(
    out: JsonTree,
    cs: Seq<JsonTree>,
    color: bool,
    short: spec_fn(u64) -> Seq<char>,
)
    ensures
        ({
            let nothing = out.get("usage_summary"@) is None && forall|i: int|
                0 <= i < cs.len() ==> !has_stats(#[trigger] cs[i]);
            stats_block(out, cs, color, short) == section_title_lines("Usage & stats"@, color)
                + run_part(out, "Run-wide (all commits)"@, color, short) + validation_part(
                out,
                color,
                short,
            ) + Seq::new(cs.len(), |i: int| commit_stats(cs[i], color, short)).flatten() + (
            if nothing {
                seq![
                    "  "@ + painted("(no usage data)"@, color, Style::Dimmed),
                    Seq::<char>::empty(),
                ]
            } else {
                Seq::empty()
            }) + subsep_lines(color)
        }),
{
    lemma_commit_stats(cs, cs.len(), color, short);
    let nothing = out.get("usage_summary"@) is None && forall|i: int|
        0 <= i < cs.len() ==> !has_stats(#[trigger] cs[i]);
    assert(nothing == (!any_stats(cs, cs.len() as int) && out.get("usage_summary"@) is None));
}

proof fn lemma_commit_stats(
    cs: Seq<JsonTree>,
    n: nat,
    color: bool,
    short: spec_fn(u64) -> Seq<char>,
)
    ensures
        commit_stats_upto(cs, n as int, color, short) == Seq::new(
            n,
            |i: int| commit_stats(cs[i], color, short),
        ).flatten(),
    decreases n,
{
    let block = |i: int| commit_stats(cs[i], color, short);
    let all = Seq::new(n, block);
    if n == 0 {
        assert(all.flatten() =~= Seq::<Seq<char>>::empty());
    } else {
        let before = Seq::new((n - 1) as nat, block);
        lemma_commit_stats(cs, (n - 1) as nat, color, short);
        assert(all =~= before.push(block(n - 1)));
        before.lemma_flatten_push(block(n - 1));
    }
}

/// The usage section of an applied change shows the run and its steps. That
/// there is no usage is said if neither is known.
pub proof fn apply_sections_show_run_and_steps(
    out: JsonTree,
    steps: Seq<JsonTree>,
    color: bool,
    short: spec_fn(u64) -> Seq<char>,
)
    requires
        out.items("usage_steps"@) == Some(steps) || (out.items("usage_steps"@) is None
            && steps.len() == 0),
    ensures
        apply_stats(out, color, short) == section_title_lines("Usage & stats"@, color) + run_part(
            out,
            "Run-wide (apply)"@,
            color,
            short,
        ) + (if steps.len() > 0 {
            seq!["  "@ + painted_twice("API steps"@, color, Style::Bold, Style::BrightCyan)]
                + step_table(steps, "    "@, color, short) + seq![Seq::<char>::empty()]
        } else {
            Seq::empty()
        }) + (if steps.len() == 0 && out.get("usage_summary"@) is None {
            seq!["  "@ + painted("(no usage data)"@, color, Style::Dimmed), Seq::<char>::empty()]
        } else {
            Seq::empty()
        }) + subsep_lines(color),
{
    if steps.len() > 0 {
        let a = seq!["  "@ + painted_twice("API steps"@, color, Style::Bold, Style::BrightCyan)]
            + step_table(steps, "    "@, color, short);
        assert(a.push(Seq::<char>::empty()) =~= a + seq![Seq::<char>::empty()]);
    }
}

/// The usage section can be made of any report of which the hashes that it
/// shows can be cut and the figures shown as shares.
pub proof fn usage_sections_can_be_made(out: JsonTree, cs: Seq<JsonTree>)
    requires
        out.get("usage_summary"@) matches Some(u) ==> shares_fit(u),
        out.get("validation_usage"@) matches Some(u) ==> shares_fit(u),
        forall|i: int|
            0 <= i < cs.len() ==> sha_divides(#[trigger] cs[i]) && (cs[i].get("usage"@) matches Some(
                u,
            ) ==> shares_fit(u)),
    ensures
        stats_fit(out, cs),
        member_shares_fit(out, "usage_summary"@),
{
    assert forall|i: int| 0 <= i < cs.len() implies commit_stats_fit(#[trigger] cs[i]) by {
        assert(sha_divides(cs[i]));
    }
}

} // verus!
