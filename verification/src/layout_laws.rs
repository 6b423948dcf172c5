//! What the layout of the report keeps to.

use crate::document::{document, plain, MAX_LEVELS};
use crate::findings::{
    dimmed_lines, explanation_upto, finding_indent, finding_width, first_line, prefix_len, problem,
    problem_lines, problem_upto, room, severity, shown_explanation, shown_problem, shown_tag, tag,
};
use crate::format::{
    double_parts, nearest, section_title_lines, step_name, subsep_lines, wall_tenths, wall_text,
    FINDING_LINE_MAX,
};
use crate::json::{JsonNumber, JsonTree};
use crate::style::{painted, painted_twice, Style};
use crate::text::{decimal, lines, repeated, trimmed_end};
use crate::usage::{
    aligned, cell, column_width, heading, heading_line, row_line, shown_cell, shown_heading,
    step_rows, widest, Column, RowView, STEP_NAME_MAX,
};
use crate::wrap::wrapped;
use crate::wrap_laws::{wrapped_bodies_fit_and_keep_the_text, wrapped_lines_fit};
use vstd::prelude::*;

verus! {

/// A step name keeps its beginning, and grows by no more than two characters
/// over the length that it is cut to: three dots stand for what was cut.
pub proof fn step_names_are_bounded(name: Seq<char>, max: nat)
    ensures
        name.len() <= max ==> step_name(name, max) == name,
        name.len() > max && max > 0 ==> step_name(name, max).len() == max + 2,
        name.len() > max && max > 0 ==> step_name(name, max).take(max - 1) == name.take(max - 1),
        name.len() > max && max > 0 ==> step_name(name, max).skip(max - 1) == seq!['.', '.', '.'],
        name.len() > 0 && max == 0 ==> step_name(name, max) == seq!['.', '.', '.'],
{
    reveal_strlit("...");
    if name.len() > max && max > 0 {
        assert(step_name(name, max).take(max - 1) =~= name.take(max - 1));
        assert(step_name(name, max).skip(max - 1) =~= seq!['.', '.', '.']);
    } else if name.len() > 0 && max == 0 {
        assert(step_name(name, max) =~= seq!['.', '.', '.']);
    }
}

proof fn lemma_widest_covers(rows: Seq<RowView>, n: int, i: int, col: Column)
    requires
        0 <= i < n <= rows.len(),
    ensures
        cell(rows[i], col).len() <= widest(rows, n, col),
    decreases n,
{
    if i < n - 1 {
        lemma_widest_covers(rows, n - 1, i, col);
    }
}

proof fn lemma_headings_fit(rows: Seq<RowView>, col: Column)
    ensures
        heading(col).len() <= column_width(rows, col),
{
    reveal_strlit("step");
    reveal_strlit("prompt");
    reveal_strlit("cache_r");
    reveal_strlit("cache_w");
    reveal_strlit("tokens");
    reveal_strlit("time");
}

proof fn lemma_cells_fit(rows: Seq<RowView>, i: int, col: Column)
    requires
        0 <= i < rows.len(),
        col == Column::Name ==> rows[i].name.len() <= 24,
    ensures
        cell(rows[i], col).len() <= column_width(rows, col),
{
    lemma_widest_covers(rows, rows.len() as int, i, col);
}

proof fn lemma_aligned_len(s: Seq<char>, width: nat, col: Column)
    requires
        s.len() <= width,
    ensures
        aligned(s, width, col).len() == width,
{
}

/// Without colour the table of steps is aligned: the line of headings and the
/// line of each row are of one length.
pub proof fn table_lines_are_aligned(
    steps: Seq<JsonTree>,
    i: int,
    cached: bool,
    indent: Seq<char>,
    short: spec_fn(u64) -> Seq<char>,
)
    requires
        0 <= i < steps.len(),
    ensures
        row_line(step_rows(steps, short), i, cached, indent, false).len() == heading_line(
            step_rows(steps, short),
            cached,
            indent,
            false,
        ).len(),
{
    let rows = step_rows(steps, short);
    let name = match steps[i].text("step"@) {
        Some(s) => s,
        None => "?"@,
    };
    step_names_are_bounded(name, STEP_NAME_MAX as nat);
    assert(rows[i].name.len() <= 24);
    assert forall|col: Column| true implies #[trigger] shown_heading(rows, col, false).len()
        == column_width(rows, col) && shown_cell(rows, i, col, false).len() == column_width(
        rows,
        col,
    ) by {
        lemma_headings_fit(rows, col);
        lemma_cells_fit(rows, i, col);
        lemma_aligned_len(heading(col), column_width(rows, col), col);
        lemma_aligned_len(cell(rows[i], col), column_width(rows, col), col);
    }
    assert(shown_heading(rows, Column::Name, false).len() == column_width(rows, Column::Name));
    assert(shown_heading(rows, Column::Prompt, false).len() == column_width(rows, Column::Prompt));
    assert(shown_heading(rows, Column::CacheR, false).len() == column_width(rows, Column::CacheR));
    assert(shown_heading(rows, Column::CacheW, false).len() == column_width(rows, Column::CacheW));
    assert(shown_heading(rows, Column::Tokens, false).len() == column_width(rows, Column::Tokens));
    assert(shown_heading(rows, Column::Time, false).len() == column_width(rows, Column::Time));
}

/// Whether no member of `ls` is longer than `width`.
pub open spec fn no_wider(ls: Seq<Seq<char>>, width: nat) -> bool {
    forall|i: int| 0 <= i < ls.len() ==> (#[trigger] ls[i]).len() <= width
}

proof fn lemma_indent_len()
    ensures
        finding_indent().len() == 9,
        finding_width() == 91,
{
    reveal_strlit("         ");
}

proof fn lemma_first_line_len(idx: int, f: JsonTree, s: Seq<char>)
    ensures
        first_line(idx, f, s, false).len() == prefix_len(idx, f) + s.len(),
{
    reveal_strlit("    ");
    reveal_strlit("  ");
    reveal_strlit(" ");
    assert(shown_tag(severity(f), false) == tag(severity(f)));
}

proof fn lemma_problem_width(idx: int, f: JsonTree, n: int)
    requires
        prefix_len(idx, f) < FINDING_LINE_MAX,
        0 <= n <= problem_lines(idx, f).len(),
    ensures
        no_wider(problem_upto(idx, f, problem_lines(idx, f), n, false), FINDING_LINE_MAX as nat),
    decreases n,
{
    let ls = problem_lines(idx, f);
    wrapped_bodies_fit_and_keep_the_text(
        problem(f),
        room(FINDING_LINE_MAX as int, prefix_len(idx, f) as int),
        finding_width(),
    );
    lemma_indent_len();
    if n == 1 {
        lemma_first_line_len(idx, f, ls[0]);
    } else if n > 1 {
        lemma_problem_width(idx, f, n - 1);
        assert(ls[n - 1].len() <= 91);
    }
}

proof fn lemma_dimmed_width(ls: Seq<Seq<char>>, n: int)
    requires
        0 <= n <= ls.len(),
        no_wider(ls, 91),
    ensures
        no_wider(dimmed_lines(ls, n, false), FINDING_LINE_MAX as nat),
    decreases n,
{
    lemma_indent_len();
    if n > 0 {
        lemma_dimmed_width(ls, n - 1);
    }
}

proof fn lemma_explanation_width(ls: Seq<Seq<char>>, n: int)
    requires
        0 <= n <= ls.len(),
    ensures
        no_wider(explanation_upto(ls, n, false), FINDING_LINE_MAX as nat),
    decreases n,
{
    if n > 0 {
        let w = wrapped(trimmed_end(ls[n - 1]), finding_width(), finding_width());
        lemma_explanation_width(ls, n - 1);
        wrapped_lines_fit(trimmed_end(ls[n - 1]), finding_width(), finding_width());
        lemma_indent_len();
        lemma_dimmed_width(w, w.len() as int);
    }
}

/// Without colour no wrapped line of a finding is wider than the limit: neither
/// those of its text, nor those of the explanation of its severity. Its number
/// and its tag must leave room for at least one character on the first line,
/// and a text without words is not wrapped.
pub proof fn findings_keep_within_the_line(idx: int, f: JsonTree)
    requires
        prefix_len(idx, f) < FINDING_LINE_MAX,
    ensures
        problem_lines(idx, f).len() > 0 ==> no_wider(
            shown_problem(idx, f, false),
            FINDING_LINE_MAX as nat,
        ),
        no_wider(shown_explanation(f, false), FINDING_LINE_MAX as nat),
{
    lemma_problem_width(idx, f, problem_lines(idx, f).len() as int);
    match f.text("severity_explanation"@) {
        Some(s) => lemma_explanation_width(lines(s), lines(s).len() as int),
        None => {},
    }
}

proof fn lemma_nearest(a: nat, b: nat)
    requires
        b > 0,
    ensures
        2 * (nearest(a, b) * b) <= 2 * a + b,
        2 * a <= 2 * (nearest(a, b) * b) + b,
{
    let q = a / b;
    let r = a % b;
    assert(a == q * b + r && r < b) by (nonlinear_arith)
        requires
            b > 0,
            q == a / b,
            r == a % b,
    ;
    assert((q + 1) * b == q * b + b) by (nonlinear_arith);
}

proof fn lemma_double_parts(secs: nat)
    requires
        1 <= secs < 1024,
    ensures
        8796093022208 <= double_parts(secs) <= 4503599627370496,
{
    reveal_with_fuel(double_parts, 11);
}

/// A time from one second to ten minutes is shown to the nearest tenth of a
/// second.
pub proof fn wall_times_are_rounded_to_tenths(ms: nat)
    requires
        1000 <= ms < 600000,
    ensures
        100 * wall_tenths(ms) <= ms + 50,
        ms <= 100 * wall_tenths(ms) + 50,
{
    let p = double_parts(ms / 1000);
    lemma_double_parts(ms / 1000);
    let m = nearest(ms * p, 1000);
    let t = nearest(m * 10, p);
    lemma_nearest(ms * p, 1000);
    lemma_nearest(m * 10, p);
    let x = ms * p;
    let y = t * p;
    assert(200 * y <= 2 * x + 100 * p + 1000);
    assert(2 * x <= 200 * y + 100 * p + 1000);
    assert((200 * t) * p == 200 * y) by (nonlinear_arith)
        requires
            y == t * p,
    ;
    assert((2 * ms + 100) * p == 2 * x + 100 * p) by (nonlinear_arith)
        requires
            x == ms * p,
    ;
    assert((200 * t + 100) * p == 200 * y + 100 * p) by (nonlinear_arith)
        requires
            y == t * p,
    ;
    assert((2 * ms) * p == 2 * x) by (nonlinear_arith)
        requires
            x == ms * p,
    ;
    assert(200 * t <= 2 * ms + 100) by (nonlinear_arith)
        requires
            (200 * t) * p <= (2 * ms + 100) * p + 1000,
            p >= 8796093022208,
    ;
    assert(2 * ms <= 200 * t + 100) by (nonlinear_arith)
        requires
            (2 * ms) * p <= (200 * t + 100) * p + 1000,
            p >= 8796093022208,
    ;
}

/// A document ends with a line feed.
pub proof fn documents_end_with_a_line_feed(pretty: Option<Seq<char>>)
    ensures
        document(pretty).len() > 0,
        document(pretty).last() == '\n',
{
    reveal_strlit("\n");
}

/// A document is its text and a line feed; without a text it is an empty
/// object.
pub proof fn documents_hold_their_text(s: Seq<char>)
    ensures
        document(Some(s)).drop_last() == s,
        document(None).drop_last() == seq!['{', '}'],
{
    reveal_strlit("\n");
    reveal_strlit("{}");
    assert(document(Some(s)).drop_last() =~= s);
    assert(document(None).drop_last() =~= seq!['{', '}']);
}

/// What holds no float can be written and read back: a value that is no list
/// and no object at any depth, a list or an object one level above its members.
pub proof fn documents_without_floats_are_plain(
    a: Seq<JsonTree>,
    m: Map<Seq<char>, JsonTree>,
    s: Seq<char>,
    b: bool,
    n: u64,
    i: i64,
    levels: nat,
)
    ensures
        plain(JsonTree::Null, levels),
        plain(JsonTree::Bool(b), levels),
        plain(JsonTree::Text(s), levels),
        plain(JsonTree::Number(JsonNumber::PosInt(n)), levels),
        plain(JsonTree::Number(JsonNumber::NegInt(i)), levels),
        (forall|k: int| 0 <= k < a.len() ==> plain(#[trigger] a[k], levels)) ==> plain(
            JsonTree::Array(a),
            levels + 1,
        ),
        (forall|k: Seq<char>| m.contains_key(k) ==> plain(#[trigger] m[k], levels)) ==> plain(
            JsonTree::Object(m),
            levels + 1,
        ),
        MAX_LEVELS == 127,
{
}

/// A time is shown in milliseconds below a second, in seconds and tenths below
/// ten minutes, and in whole minutes and the seconds that are left from there
/// on.
pub proof fn times_are_shown_by_their_size(ms: nat, whole: nat, rest: nat)
    ensures
        ms < 1000 ==> wall_text(ms) == decimal(ms) + "ms"@,
        1000 <= ms < 600000 && rest < 10 && 10 * whole + rest == wall_tenths(ms) ==> wall_text(ms)
            == decimal(whole) + "."@ + decimal(rest) + "s"@,
        600000 <= ms && rest < 60 && 60 * whole + rest == ms / 1000 ==> wall_text(ms) == decimal(
            whole,
        ) + "m "@ + decimal(rest) + "s"@,
{
}

/// A section starts with an empty line, its title between two spaces and a rule
/// of 72 dashes, and ends with a rule of 72 dots and an empty line.
pub proof fn sections_stand_between_rules(title: Seq<char>, color: bool)
    ensures
        section_title_lines(title, color) == seq![
            Seq::<char>::empty(),
            painted_twice(" "@ + title + " "@, color, Style::Bold, Style::BrightCyan),
            painted(repeated('-', 72), color, Style::Dimmed),
        ],
        subsep_lines(color) == seq![
            painted(repeated('·', 72), color, Style::Dimmed),
            Seq::<char>::empty(),
        ],
{
}

} // verus!
