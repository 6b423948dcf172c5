//! The usage section.

use crate::commit::{commit_title, sha_can_be_cut, sha_divides, title};
use crate::format::{
    fmt_wall_ms, section_title, section_title_lines, subsep, subsep_lines, wall_text,
};
use crate::json::{flag, get, items, json, text, trees_at, uint, JsonTree};
use crate::page::Page;
use crate::style::{paint, paint_twice, painted, painted_twice, Style};
use crate::text::{decimal, decimal_text};
use crate::usage::{
    agrees, callable, label, labelled, or_0, or_zero, print_step_table, print_usage_card,
    shares_can_be_shown, shares_fit, step_table, usage_card,
};
use serde_json::Value;
use vstd::prelude::*;

verus! {

/// How long something took, where that is known.
pub open spec fn wall_line(t: JsonTree, color: bool) -> Seq<Seq<char>> {
    match t.uint("wall_ms"@) {
        Some(ms) => seq![
            "    "@ + label("Wall time:"@, color) + " "@ + painted(
                wall_text(ms as nat),
                color,
                Style::BrightCyan,
            ),
        ],
        None => Seq::empty(),
    }
}

fn show_wall(v: &Value, color: bool) -> (r: Page)
    ensures
        r@ == wall_line(json(*v), color),
{
    let mut page = Page::new();
    if let Some(ms) = uint(v, "wall_ms") {
        page.line(
            String::from_str("    ").concat(labelled("Wall time:", color).as_str()).concat(
                " ",
            ).concat(paint(fmt_wall_ms(ms).as_str(), color, Style::BrightCyan).as_str()),
        );
    }
    page
}

/// The table of the steps of `t`, where there are any.
pub open spec fn steps_part(t: JsonTree, color: bool, short: spec_fn(u64) -> Seq<char>) -> Seq<
    Seq<char>,
> {
    match t.items("usage_steps"@) {
        Some(steps) => if steps.len() > 0 {
            seq!["    "@ + label("API steps"@, color)] + step_table(
                steps,
                "      "@,
                color,
                short,
            )
        } else {
            Seq::empty()
        },
        None => Seq::empty(),
    }
}

fn show_steps<F: Fn(u64) -> String + Copy>(v: &Value, color: bool, fmt: F) -> (r: Page)
    requires
        callable(fmt),
    ensures
        forall|short: spec_fn(u64) -> Seq<char>| #[trigger]
            agrees(fmt, short) ==> r@ == steps_part(json(*v), color, short),
{
    let mut page = Page::new();
    if let Some(steps) = items(v, "usage_steps") {
        if steps.len() > 0 {
            page.line(String::from_str("    ").concat(labelled("API steps", color).as_str()));
            page.append(print_step_table(steps, "      ", color, fmt));
        }
    }
    page
}

/// The usage of the whole run, where it is known.
pub open spec fn run_part(
    out: JsonTree,
    name: Seq<char>,
    color: bool,
    short: spec_fn(u64) -> Seq<char>,
) -> Seq<Seq<char>> {
    match out.get("usage_summary"@) {
        Some(u) => seq![
            "  "@ + painted_twice(name, color, Style::Bold, Style::BrightGreen),
            usage_card(u, "    "@, color, short),
        ] + wall_line(out, color) + seq![Seq::<char>::empty()],
        None => Seq::empty(),
    }
}

/// Whether the figures of the member `key`, where there is one, can be shown as
/// shares.
pub open spec fn member_shares_fit(t: JsonTree, key: Seq<char>) -> bool {
    match t.get(key) {
        Some(u) => shares_fit(u),
        None => true,
    }
}

fn member_can_be_shown(v: &Value, key: &str) -> (r: bool)
    ensures
        r == member_shares_fit(json(*v), key@),
{
    match get(v, key) {
        Some(u) => shares_can_be_shown(u),
        None => true,
    }
}

fn show_run<F: Fn(u64) -> String + Copy>(out: &Value, name: &str, color: bool, fmt: F) -> (r: Page)
    requires
        callable(fmt),
        member_shares_fit(json(*out), "usage_summary"@),
    ensures
        forall|short: spec_fn(u64) -> Seq<char>| #[trigger]
            agrees(fmt, short) ==> r@ == run_part(json(*out), name@, color, short),
{
    let mut page = Page::new();
    if let Some(u) = get(out, "usage_summary") {
        page.line(
            String::from_str("  ").concat(
                paint_twice(name, color, Style::Bold, Style::BrightGreen).as_str(),
            ),
        );
        page.line(print_usage_card(u, "    ", color, fmt));
        page.append(show_wall(out, color));
        page.blank_line();
        proof {
            assert forall|short: spec_fn(u64) -> Seq<char>| #[trigger]
                agrees(fmt, short) implies page@ == run_part(json(*out), name@, color, short) by {
                assert(page@ =~= run_part(json(*out), name@, color, short));
            }
        }
    }
    page
}

/// The heading of the usage of the validation, with the model where it is
/// named.
pub open spec fn validation_heading(v: JsonTree) -> Seq<char> {
    match v.text("model"@) {
        Some(m) => if m.len() > 0 {
            "Validation ("@ + m + ")"@
        } else {
            "Validation"@
        },
        None => "Validation"@,
    }
}

/// The usage of the validation, where it is known.
pub open spec fn validation_part(
    out: JsonTree,
    color: bool,
    short: spec_fn(u64) -> Seq<char>,
) -> Seq<Seq<char>> {
    match out.get("validation_usage"@) {
        Some(v) => seq![
            "  "@ + painted_twice(validation_heading(v), color, Style::Bold, Style::BrightCyan),
            usage_card(v, "    "@, color, short),
        ] + steps_part(v, color, short) + wall_line(v, color) + seq![Seq::<char>::empty()],
        None => Seq::empty(),
    }
}

fn show_validation<F: Fn(u64) -> String + Copy>(out: &Value, color: bool, fmt: F) -> (r: Page)
    requires
        callable(fmt),
        member_shares_fit(json(*out), "validation_usage"@),
    ensures
        forall|short: spec_fn(u64) -> Seq<char>| #[trigger]
            agrees(fmt, short) ==> r@ == validation_part(json(*out), color, short),
{
    let mut page = Page::new();
    if let Some(v) = get(out, "validation_usage") {
        let header = match text(v, "model") {
            Some(m) => if m.is_empty() {
                String::from_str("Validation")
            } else {
                String::from_str("Validation (").concat(m).concat(")")
            },
            None => String::from_str("Validation"),
        };
        page.line(
            String::from_str("  ").concat(
                paint_twice(header.as_str(), color, Style::Bold, Style::BrightCyan).as_str(),
            ),
        );
        page.line(print_usage_card(v, "    ", color, fmt));
        page.append(show_steps(v, color, fmt));
        page.append(show_wall(v, color));
        page.blank_line();
        proof {
            assert forall|short: spec_fn(u64) -> Seq<char>| #[trigger]
                agrees(fmt, short) implies page@ == validation_part(json(*out), color, short) by {
                assert(page@ =~= validation_part(json(*out), color, short));
            }
        }
    }
    page
}

/// Whether the usage section has something to say of a commit.
pub open spec fn has_stats(c: JsonTree) -> bool {
    c.flag("dry_run"@) || c.text("error"@) is Some || c.get("usage"@) is Some || c.get(
        "usage_steps"@,
    ) is Some
}

/// The line that names a commit.
pub open spec fn commit_line(c: JsonTree, color: bool) -> Seq<char> {
    "  "@ + label("Commit"@, color) + " "@ + painted(title(c), color, Style::Yellow)
}

/// What is said of a dry run: the sizes of what would have been sent, where
/// they are known.
pub open spec fn dry_run_line(c: JsonTree, color: bool) -> Seq<char> {
    let head = "    "@ + painted_twice("(dry run)"@, color, Style::Italic, Style::Dimmed);
    if c.get("reference_chars"@) is Some || c.get("patch_chars"@) is Some {
        head + "  reference_chars="@ + painted(
            decimal(or_zero(c.uint("reference_chars"@)) as nat),
            color,
            Style::BrightWhite,
        ) + "  patch_chars="@ + painted(
            decimal(or_zero(c.uint("patch_chars"@)) as nat),
            color,
            Style::BrightWhite,
        )
    } else {
        head + "  (no API call, no `vng` invocation)"@
    }
}

/// What the usage section says of a commit.
pub open spec fn commit_stats(c: JsonTree, color: bool, short: spec_fn(u64) -> Seq<char>) -> Seq<
    Seq<char>,
> {
    if !has_stats(c) {
        Seq::empty()
    } else if c.flag("dry_run"@) {
        seq![commit_line(c, color), dry_run_line(c, color), Seq::<char>::empty()]
    } else if c.text("error"@) is Some {
        seq![
            commit_line(c, color),
            "    "@ + painted("(review failed — see Findings for details)"@, color, Style::Red),
            Seq::<char>::empty(),
        ]
    } else {
        seq![commit_line(c, color)] + (match c.get("usage"@) {
            Some(u) => seq![usage_card(u, "    "@, color, short)],
            None => Seq::empty(),
        }) + steps_part(c, color, short) + wall_line(c, color) + seq![Seq::<char>::empty()]
    }
}

/// Whether the usage section can be made of a commit.
pub open spec fn commit_stats_fit(c: JsonTree) -> bool {
    &&& has_stats(c) ==> sha_divides(c)
    &&& !c.flag("dry_run"@) && c.text("error"@) is None ==> member_shares_fit(c, "usage"@)
}

fn show_commit_line(c: &Value, color: bool) -> (r: String)
    requires
        sha_divides(json(*c)),
    ensures
        r@ == commit_line(json(*c), color),
{
    String::from_str("  ").concat(labelled("Commit", color).as_str()).concat(" ").concat(
        paint(commit_title(c).as_str(), color, Style::Yellow).as_str(),
    )
}

fn show_dry_run(c: &Value, color: bool) -> (r: String)
    ensures
        r@ == dry_run_line(json(*c), color),
{
    let head = String::from_str("    ").concat(
        paint_twice("(dry run)", color, Style::Italic, Style::Dimmed).as_str(),
    );
    if get(c, "reference_chars").is_some() || get(c, "patch_chars").is_some() {
        let rc = decimal_text(or_0(uint(c, "reference_chars")));
        let pc = decimal_text(or_0(uint(c, "patch_chars")));
        head.concat("  reference_chars=").concat(
            paint(rc.as_str(), color, Style::BrightWhite).as_str(),
        ).concat("  patch_chars=").concat(paint(pc.as_str(), color, Style::BrightWhite).as_str())
    } else {
        head.concat("  (no API call, no `vng` invocation)")
    }
}

fn states_stats(c: &Value) -> (r: bool)
    ensures
        r == has_stats(json(*c)),
{
    flag(c, "dry_run") || text(c, "error").is_some() || get(c, "usage").is_some() || get(
        c,
        "usage_steps",
    ).is_some()
}

fn show_commit_stats<F: Fn(u64) -> String + Copy>(c: &Value, color: bool, fmt: F) -> (r: Page)
    requires
        callable(fmt),
        commit_stats_fit(json(*c)),
    ensures
        forall|short: spec_fn(u64) -> Seq<char>| #[trigger]
            agrees(fmt, short) ==> r@ == commit_stats(json(*c), color, short),
{
    let mut page = Page::new();
    if !states_stats(c) {
        return page;
    }
    page.line(show_commit_line(c, color));
    if flag(c, "dry_run") {
        page.line(show_dry_run(c, color));
        page.blank_line();
        return page;
    }
    if text(c, "error").is_some() {
        page.line(
            String::from_str("    ").concat(
                paint("(review failed — see Findings for details)", color, Style::Red).as_str(),
            ),
        );
        page.blank_line();
        return page;
    }
    if let Some(u) = get(c, "usage") {
        page.line(print_usage_card(u, "    ", color, fmt));
    }
    page.append(show_steps(c, color, fmt));
    page.append(show_wall(c, color));
    page.blank_line();
    proof {
        assert forall|short: spec_fn(u64) -> Seq<char>| #[trigger]
            agrees(fmt, short) implies page@ == commit_stats(json(*c), color, short) by {
            assert(page@ =~= commit_stats(json(*c), color, short));
        }
    }
    page
}

/// What the usage section says of the first `n` commits.
pub open spec fn commit_stats_upto(
    cs: Seq<JsonTree>,
    n: int,
    color: bool,
    short: spec_fn(u64) -> Seq<char>,
) -> Seq<Seq<char>>
    decreases n,
{
    if n <= 0 {
        Seq::empty()
    } else {
        commit_stats_upto(cs, n - 1, color, short) + commit_stats(cs[n - 1], color, short)
    }
}

/// That there is nothing to say.
pub open spec fn no_usage(color: bool) -> Seq<Seq<char>> {
    seq!["  "@ + painted("(no usage data)"@, color, Style::Dimmed), Seq::<char>::empty()]
}

fn show_no_usage(color: bool) -> (r: Page)
    ensures
        r@ == no_usage(color),
{
    let mut page = Page::new();
    page.line(
        String::from_str("  ").concat(paint("(no usage data)", color, Style::Dimmed).as_str()),
    );
    page.blank_line();
    page
}

/// Whether the usage section has something to say of one of the first `n`
/// commits.
pub open spec fn any_stats(cs: Seq<JsonTree>, n: int) -> bool {
    exists|i: int| 0 <= i < n && has_stats(#[trigger] cs[i])
}

/// The usage section of a report: first the run, then the validation, then each
/// commit.
pub open spec fn stats_block(
    out: JsonTree,
    cs: Seq<JsonTree>,
    color: bool,
    short: spec_fn(u64) -> Seq<char>,
) -> Seq<Seq<char>> {
    section_title_lines("Usage & stats"@, color) + run_part(
        out,
        "Run-wide (all commits)"@,
        color,
        short,
    ) + validation_part(out, color, short) + commit_stats_upto(cs, cs.len() as int, color, short)
        + (if !any_stats(cs, cs.len() as int) && out.get("usage_summary"@) is None {
        no_usage(color)
    } else {
        Seq::empty()
    }) + subsep_lines(color)
}

/// Whether the usage section of a report can be made: the hashes that it shows
/// can be cut, and the figures shown as shares.
pub open spec fn stats_fit(out: JsonTree, cs: Seq<JsonTree>) -> bool {
    &&& member_shares_fit(out, "usage_summary"@)
    &&& member_shares_fit(out, "validation_usage"@)
    &&& forall|i: int| 0 <= i < cs.len() ==> commit_stats_fit(#[trigger] cs[i])
}

/// Whether the usage section of the report `out` with the commits `commits` can
/// be made.
pub(crate) fn stats_can_be_shown(out: &Value, commits: &Vec<&Value>) -> (r: bool)
    ensures
        r == stats_fit(json(*out), trees_at(commits@)),
{
    let ghost cs = trees_at(commits@);
    let mut i: usize = 0;
    while i < commits.len()
        invariant
            i <= commits@.len(),
            cs == trees_at(commits@),
            forall|j: int| 0 <= j < i ==> commit_stats_fit(#[trigger] cs[j]),
        decreases commits@.len() - i,
    {
        let c = commits[i];
        assert(cs[i as int] == json(*c));
        let failed = flag(c, "dry_run") || text(c, "error").is_some();
        if (states_stats(c) && !sha_can_be_cut(c)) || (!failed && !member_can_be_shown(
            c,
            "usage",
        )) {
            return false;
        }
        i = i + 1;
    }
    member_can_be_shown(out, "usage_summary") && member_can_be_shown(out, "validation_usage")
}

/// The usage section of the report `out` with the commits `commits`.
pub fn print_stats_block<F: Fn(u64) -> String + Copy>(
    out: &Value,
    commits: &Vec<&Value>,
    color: bool,
    fmt_tokens_short: F,
) -> (r: Page)
    requires
        callable(fmt_tokens_short),
        stats_fit(json(*out), trees_at(commits@)),
    ensures
        forall|short: spec_fn(u64) -> Seq<char>| #[trigger]
            agrees(fmt_tokens_short, short) ==> r@ == stats_block(
                json(*out),
                trees_at(commits@),
                color,
                short,
            ),
{
    let ghost cs = trees_at(commits@);
    let mut page = section_title("Usage & stats", color);
    page.append(show_run(out, "Run-wide (all commits)", color, fmt_tokens_short));
    page.append(show_validation(out, color, fmt_tokens_short));

    let mut per_commit = Page::new();
    let mut any_commit_stats = false;
    let mut i: usize = 0;
    while i < commits.len()
        invariant
            i <= commits@.len(),
            cs == trees_at(commits@),
            callable(fmt_tokens_short),
            stats_fit(json(*out), cs),
            any_commit_stats == any_stats(cs, i as int),
            forall|short: spec_fn(u64) -> Seq<char>| #[trigger]
                agrees(fmt_tokens_short, short) ==> per_commit@ == commit_stats_upto(
                    cs,
                    i as int,
                    color,
                    short,
                ),
        decreases commits@.len() - i,
    {
        let c = commits[i];
        assert(cs[i as int] == json(*c));
        if states_stats(c) {
            any_commit_stats = true;
        }
        per_commit.append(show_commit_stats(c, color, fmt_tokens_short));
        i = i + 1;
    }
    page.append(per_commit);
    if !any_commit_stats && get(out, "usage_summary").is_none() {
        page.append(show_no_usage(color));
    } else {
        page.append(Page::new());
    }
    page.append(subsep(color));
    page
}

/// The steps of an applied change, where there are any.
pub open spec fn apply_steps_part(out: JsonTree, color: bool, short: spec_fn(u64) -> Seq<char>) -> Seq<
    Seq<char>,
> {
    match out.items("usage_steps"@) {
        Some(steps) => if steps.len() > 0 {
            (seq!["  "@ + painted_twice("API steps"@, color, Style::Bold, Style::BrightCyan)]
                + step_table(steps, "    "@, color, short)).push(Seq::<char>::empty())
        } else {
            Seq::empty()
        },
        None => Seq::empty(),
    }
}

/// The usage section of an applied change: first the run, then its steps.
pub open spec fn apply_stats(out: JsonTree, color: bool, short: spec_fn(u64) -> Seq<char>) -> Seq<
    Seq<char>,
> {
    section_title_lines("Usage & stats"@, color) + run_part(
        out,
        "Run-wide (apply)"@,
        color,
        short,
    ) + apply_steps_part(out, color, short) + (if out.get("usage_summary"@) is None && !(out.items(
        "usage_steps"@,
    ) matches Some(steps) && steps.len() > 0) {
        no_usage(color)
    } else {
        Seq::empty()
    }) + subsep_lines(color)
}

/// Whether the usage section of the applied change `out` can be made.
pub fn can_print_apply_stats(out: &Value) -> (r: bool)
    ensures
        r == member_shares_fit(json(*out), "usage_summary"@),
{
    member_can_be_shown(out, "usage_summary")
}

/// The usage section of the applied change `out`.
pub fn eprint_apply_stats<F: Fn(u64) -> String + Copy>(
    out: &Value,
    color: bool,
    fmt_tokens_short: F,
) -> (r: Page)
    requires
        callable(fmt_tokens_short),
        member_shares_fit(json(*out), "usage_summary"@),
    ensures
        forall|short: spec_fn(u64) -> Seq<char>| #[trigger]
            agrees(fmt_tokens_short, short) ==> r@ == apply_stats(json(*out), color, short),
{
    let mut page = section_title("Usage & stats", color);
    let mut any_stats = get(out, "usage_summary").is_some();
    page.append(show_run(out, "Run-wide (apply)", color, fmt_tokens_short));

    let mut step_part = Page::new();
    if let Some(steps) = items(out, "usage_steps") {
        if steps.len() > 0 {
            any_stats = true;
            step_part.line(
                String::from_str("  ").concat(
                    paint_twice("API steps", color, Style::Bold, Style::BrightCyan).as_str(),
                ),
            );
            step_part.append(print_step_table(steps, "    ", color, fmt_tokens_short));
            step_part.blank_line();
        }
    }
    page.append(step_part);
    if any_stats {
        page.append(Page::new());
    } else {
        page.append(show_no_usage(color));
    }
    page.append(subsep(color));
    page
}

} // verus!
