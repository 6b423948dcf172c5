//! What holds of the report as a whole.

use crate::commit::{commits, effective_findings, plan_text, sha12, subject};
use crate::findings::{commit_section, findings_block, only_plans, reportable, section_upto};
use crate::json::{JsonNumber, JsonTree};
use crate::plan::{bare_plan, plan_details, test_skipped, test_summary_lines, test_unknown};
use crate::report::{
    all_fast, any_lkml, findings_mode, lkml_block, lkml_section, lkml_text, lkml_upto,
    quick_summary, report_stdout, validated_mode,
};
use crate::text::lines;
use vstd::prelude::*;

verus! {

/// The members of a report that state usage.
pub open spec fn run_usage_keys() -> Set<Seq<char>> {
    set!["usage_summary"@, "validation_usage"@, "wall_ms"@]
}

/// The members of a commit that state usage.
pub open spec fn commit_usage_keys() -> Set<Seq<char>> {
    set!["usage"@, "usage_steps"@, "wall_ms"@]
}

/// Whether `a` and `b` have the same members, but for those that `except`
/// names.
pub open spec fn agree_except(a: JsonTree, b: JsonTree, except: Set<Seq<char>>) -> bool {
    forall|k: Seq<char>| !except.contains(k) ==> #[trigger] a.get(k) == b.get(k)
}

/// Whether two reports differ at most in the usage that they state.
pub open spec fn differ_in_usage_only(a: JsonTree, b: JsonTree) -> bool {
    &&& agree_except(a, b, run_usage_keys().insert("commits"@))
    &&& commits(a).len() == commits(b).len()
    &&& forall|i: int|
        0 <= i < commits(a).len() ==> agree_except(
            #[trigger] commits(a)[i],
            commits(b)[i],
            commit_usage_keys(),
        )
}

proof fn lemma_run_reads(a: JsonTree, b: JsonTree)
    requires
        agree_except(a, b, run_usage_keys().insert("commits"@)),
    ensures
        a.get("summary"@) == b.get("summary"@),
        a.get("validation_mode"@) == b.get("validation_mode"@),
{
    reveal_strlit("usage_summary");
    reveal_strlit("validation_usage");
    reveal_strlit("wall_ms");
    reveal_strlit("commits");
    reveal_strlit("summary");
    reveal_strlit("validation_mode");
    assert("summary"@[0] != "wall_ms"@[0]);
    assert("summary"@[0] != "commits"@[0]);
    assert("validation_mode"@.len() == 15);
    assert(!run_usage_keys().insert("commits"@).contains("validation_mode"@));
}

proof fn lemma_commit_reads(a: JsonTree, b: JsonTree)
    requires
        agree_except(a, b, commit_usage_keys()),
    ensures
        a.get("dry_run"@) == b.get("dry_run"@),
        a.get("plan"@) == b.get("plan"@),
        a.get("fast"@) == b.get("fast"@),
        a.get("error"@) == b.get("error"@),
        a.get("sha"@) == b.get("sha"@),
        a.get("subject"@) == b.get("subject"@),
        a.get("findings"@) == b.get("findings"@),
        a.get("validated_findings"@) == b.get("validated_findings"@),
        a.get("boot_status"@) == b.get("boot_status"@),
        a.get("test_command"@) == b.get("test_command"@),
        a.get("test_summary"@) == b.get("test_summary"@),
        a.get("test_plan"@) == b.get("test_plan"@),
        a.get("test_description"@) == b.get("test_description"@),
        a.get("test_script"@) == b.get("test_script"@),
        a.get("test_rationale"@) == b.get("test_rationale"@),
        a.get("lkml_report"@) == b.get("lkml_report"@),
{
    reveal_strlit("usage");
    reveal_strlit("usage_steps");
    reveal_strlit("wall_ms");
    reveal_strlit("dry_run");
    reveal_strlit("plan");
    reveal_strlit("fast");
    reveal_strlit("error");
    reveal_strlit("sha");
    reveal_strlit("subject");
    reveal_strlit("findings");
    reveal_strlit("validated_findings");
    reveal_strlit("boot_status");
    reveal_strlit("test_command");
    reveal_strlit("test_summary");
    reveal_strlit("test_plan");
    reveal_strlit("test_description");
    reveal_strlit("test_script");
    reveal_strlit("test_rationale");
    reveal_strlit("lkml_report");
    assert("dry_run"@[0] != "wall_ms"@[0]);
    assert("subject"@[0] != "wall_ms"@[0]);
    assert("error"@[0] != "usage"@[0]);
    assert("boot_status"@[0] != "usage_steps"@[0]);
    assert("test_script"@[0] != "usage_steps"@[0]);
    assert("lkml_report"@[0] != "usage_steps"@[0]);
}

proof fn lemma_same_section(a: JsonTree, b: JsonTree, use_validated: bool, color: bool)
    requires
        agree_except(a, b, commit_usage_keys()),
    ensures
        commit_section(a, use_validated, color) == commit_section(b, use_validated, color),
        lkml_section(a, color) == lkml_section(b, color),
{
    lemma_commit_reads(a, b);
    assert(subject(a) == subject(b));
    assert(sha12(a) == sha12(b));
    assert(plan_text(a, "description"@, "test_description"@) == plan_text(
        b,
        "description"@,
        "test_description"@,
    ));
    assert(plan_text(a, "script"@, "test_script"@) == plan_text(b, "script"@, "test_script"@));
    assert(plan_text(a, "rationale"@, "test_rationale"@) == plan_text(
        b,
        "rationale"@,
        "test_rationale"@,
    ));
    assert(plan_details(a, color) == plan_details(b, color));
    assert(bare_plan(a) == bare_plan(b));
    assert(test_summary_lines(a, color) == test_summary_lines(b, color));
    assert(effective_findings(a, use_validated) == effective_findings(b, use_validated));
}

proof fn lemma_same_blocks(
    a: Seq<JsonTree>,
    b: Seq<JsonTree>,
    n: int,
    use_validated: bool,
    color: bool,
)
    requires
        a.len() == b.len(),
        forall|i: int|
            0 <= i < a.len() ==> agree_except(#[trigger] a[i], b[i], commit_usage_keys()),
        0 <= n <= a.len(),
    ensures
        only_plans(a) == only_plans(b),
        reportable(a) == reportable(b),
        all_fast(a) == all_fast(b),
        any_lkml(a, a.len() as int) == any_lkml(b, b.len() as int),
        section_upto(a, n, use_validated, color) == section_upto(b, n, use_validated, color),
        lkml_upto(a, n, color) == lkml_upto(b, n, color),
    decreases n,
{
    assert forall|i: int| 0 <= i < a.len() implies {
        &&& (#[trigger] a[i]).flag("dry_run"@) == b[i].flag("dry_run"@)
        &&& a[i].flag("plan"@) == b[i].flag("plan"@)
        &&& a[i].flag("fast"@) == b[i].flag("fast"@)
        &&& lkml_text(a[i]) == lkml_text(b[i])
    } by {
        lemma_commit_reads(a[i], b[i]);
    }
    assert(reportable(a) == reportable(b)) by {
        if reportable(a) {
            let i = choose|i: int| 0 <= i < a.len() && !(#[trigger] a[i]).flag("dry_run"@);
            assert(!b[i].flag("dry_run"@));
        }
        if reportable(b) {
            let i = choose|i: int| 0 <= i < b.len() && !(#[trigger] b[i]).flag("dry_run"@);
            assert(!a[i].flag("dry_run"@));
        }
    }
    assert(any_lkml(a, a.len() as int) == any_lkml(b, b.len() as int)) by {
        if any_lkml(a, a.len() as int) {
            let i = choose|i: int| 0 <= i < a.len() && lkml_text(#[trigger] a[i]) is Some;
            assert(lkml_text(b[i]) is Some);
        }
        if any_lkml(b, b.len() as int) {
            let i = choose|i: int| 0 <= i < b.len() && lkml_text(#[trigger] b[i]) is Some;
            assert(lkml_text(a[i]) is Some);
        }
    }
    assert(only_plans(a) == only_plans(b)) by {
        if only_plans(a) {
            assert forall|i: int|
                0 <= i < b.len() && !(#[trigger] b[i]).flag("dry_run"@) implies b[i].flag(
                "plan"@,
            ) by {
                assert(a[i].flag("plan"@));
            }
        }
        if only_plans(b) {
            assert forall|i: int|
                0 <= i < a.len() && !(#[trigger] a[i]).flag("dry_run"@) implies a[i].flag(
                "plan"@,
            ) by {
                assert(b[i].flag("plan"@));
            }
        }
    }
    assert(all_fast(a) == all_fast(b)) by {
        if all_fast(a) {
            assert forall|i: int| 0 <= i < b.len() implies (#[trigger] b[i]).flag("fast"@) by {
                assert(a[i].flag("fast"@));
            }
        }
        if all_fast(b) {
            assert forall|i: int| 0 <= i < a.len() implies (#[trigger] a[i]).flag("fast"@) by {
                assert(b[i].flag("fast"@));
            }
        }
    }
    if n > 0 {
        lemma_same_blocks(a, b, n - 1, use_validated, color);
        lemma_same_section(a[n - 1], b[n - 1], use_validated, color);
    }
}

/// What goes to the standard output does not depend on the usage that a report
/// states: reports that differ in nothing else print the same there.
pub proof fn stdout_is_free_of_usage(a: JsonTree, b: JsonTree, color: bool)
    requires
        differ_in_usage_only(a, b),
    ensures
        report_stdout(a, color) == report_stdout(b, color),
{
    lemma_run_reads(a, b);
    assert(validated_mode(a) == validated_mode(b));
    assert(findings_mode(a) == findings_mode(b));
    assert(quick_summary(a, color) == quick_summary(b, color));
    lemma_same_blocks(
        commits(a),
        commits(b),
        commits(a).len() as int,
        validated_mode(a),
        color,
    );
}

/// A report of fast reviews only has no findings section: the mail texts, if
/// they are printed, follow the quick summary.
pub proof fn fast_reports_have_no_findings_section(out: JsonTree, color: bool)
    requires
        all_fast(commits(out)),
    ensures
        report_stdout(out, color) == quick_summary(out, color) + (if findings_mode(out) {
            Seq::empty()
        } else {
            lkml_block(commits(out), color)
        }),
{
    assert(quick_summary(out, color) + Seq::<Seq<char>>::empty() =~= quick_summary(out, color));
}

/// Where validation took the place of the mail texts, none is printed: the
/// report ends with the findings section, if it has one.
pub proof fn findings_mode_prints_no_mail(out: JsonTree, color: bool)
    requires
        findings_mode(out),
    ensures
        report_stdout(out, color) == quick_summary(out, color) + (if all_fast(commits(out)) {
            Seq::empty()
        } else {
            findings_block(commits(out), true, color)
        }),
{
    let head = quick_summary(out, color) + (if all_fast(commits(out)) {
        Seq::empty()
    } else {
        findings_block(commits(out), true, color)
    });
    assert(head + Seq::<Seq<char>>::empty() =~= head);
}

/// Dry runs alone leave no findings section.
pub proof fn dry_runs_have_no_findings_section(
    cs: Seq<JsonTree>,
    use_validated: bool,
    color: bool,
)
    requires
        forall|i: int| 0 <= i < cs.len() ==> (#[trigger] cs[i]).flag("dry_run"@),
    ensures
        findings_block(cs, use_validated, color) == Seq::<Seq<char>>::empty(),
{
}

/// The lines of a mail text are printed as they are, without indent or colour,
/// whether the headings are coloured or not.
pub proof fn mail_text_is_printed_verbatim(c: JsonTree, color: bool)
    requires
        lkml_text(c) is Some,
    ensures
        lkml_section(c, color).len() == lines(lkml_text(c)->0).len() + 4,
        lkml_section(c, color).subrange(3, 3 + lines(lkml_text(c)->0).len() as int) == lines(
            lkml_text(c)->0,
        ),
{
    assert(lkml_section(c, color).subrange(3, 3 + lines(lkml_text(c)->0).len() as int) =~= lines(
        lkml_text(c)->0,
    ));
}

/// Where no validated findings are there, the findings that were made are
/// shown.
pub proof fn findings_fall_back_to_the_raw_ones(c: JsonTree)
    requires
        c.items("validated_findings"@) is None,
    ensures
        effective_findings(c, true) == effective_findings(c, false),
{
}

/// Nothing is shown of a test that was skipped, nor of one of which neither the
/// command nor a summary is known.
pub proof fn unknown_tests_are_not_shown(c: JsonTree, color: bool)
    requires
        test_skipped(c) || test_unknown(c),
    ensures
        test_summary_lines(c, color) == Seq::<Seq<char>>::empty(),
{
}

/// The quick summary shows the text and the counts alone: what else the summary
/// holds does not disturb it.
pub proof fn summaries_show_text_and_counts(a: JsonTree, b: JsonTree, color: bool)
    requires
        a.get("summary"@) is Some,
        b.get("summary"@) is Some,
        a.get("summary"@)->0.get("text"@) == b.get("summary"@)->0.get("text"@),
        a.get("summary"@)->0.get("counts"@) == b.get("summary"@)->0.get("counts"@),
    ensures
        quick_summary(a, color) == quick_summary(b, color),
{
}

/// A negative number is not taken for a token count, and one that is not
/// negative is taken as it is.
pub proof fn counts_are_not_negative(n: u64, i: i64)
    ensures
        JsonTree::Number(JsonNumber::PosInt(n)).as_count() == Some(n),
        i < 0 ==> JsonTree::Number(JsonNumber::NegInt(i)).as_count() is None,
{
}

} // verus!
