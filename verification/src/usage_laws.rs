//! What the usage card and the table of steps show of which figure.

use crate::format::wall_text;
use crate::json::JsonTree;
use crate::style::{painted, painted_twice, Style};
use crate::text::{decimal, joined, padded_end, padded_start, trimmed};
use crate::usage::{
    agrees, callable, cell, column_style, column_width, error_lines, gap, heading, heading_line,
    label, prompt_total, row_error_lines, row_line, share, shares_fit, shown_cell, shown_heading,
    step_rows, step_table, table_upto, usage_card, uses_cache, widest, Column, RowView,
};
use crate::wrap::wrapped;
use vstd::arithmetic::div_mod::{lemma_fundamental_div_mod, lemma_mod_bound};
use vstd::prelude::*;

verus! {

/// A share is the whole percentage `p` of the prompt that a figure makes up: a
/// figure as large as the prompt is a hundred percent of it, and a smaller one
/// no more. Of a prompt of no tokens nothing is a share.
pub proof fn shares_are_whole_percentages(part: u64, total: u64) -> (p: nat)
    ensures
        total == 0 ==> share(part, total).len() == 0,
        total > 0 ==> {
            &&& share(part, total) == " ("@ + decimal(p) + " % of prompt)"@
            &&& p * total <= 100 * part < (p + 1) * total
            &&& part <= total ==> p <= 100
            &&& part == total ==> p == 100
        },
{
    if total == 0 {
        0
    } else {
        let a = (part * 100) as int;
        let t = total as int;
        let p = ((part * 100) as nat / total as nat) as nat;
        lemma_fundamental_div_mod(a, t);
        lemma_mod_bound(a, t);
        assert(p == a / t);
        assert(p * total == t * (a / t)) by (nonlinear_arith)
            requires
                p == a / t,
                t == total,
        ;
        assert((p + 1) * total == p * total + total) by (nonlinear_arith);
        if part <= total {
            assert(p <= 100) by (nonlinear_arith)
                requires
                    p * total <= 100 * part,
                    part <= total,
                    total > 0,
            ;
        }
        if part == total {
            assert(p >= 100) by (nonlinear_arith)
                requires
                    100 * part < (p + 1) * total,
                    part == total,
                    total > 0,
            ;
        }
        p
    }
}

/// Figures of which a hundredfold fits the machine's integers can be shown, and
/// so can any figure of a prompt that is not known.
pub proof fn ordinary_figures_can_be_shown(u: JsonTree)
    requires
        u.count("prompt_tokens"@) is None || {
            &&& u.count("cache_creation_tokens"@) matches Some(n) ==> n <= u64::MAX / 100
            &&& u.count("cache_read_tokens"@) matches Some(n) ==> n <= u64::MAX / 100
        },
    ensures
        shares_fit(u),
{
    assert(prompt_total(u) == 0 || u.count("prompt_tokens"@) is Some);
}

/// A figure behind its name, in the colour of its kind.
pub open spec fn figure(name: Seq<char>, value: Seq<char>, color: bool, style: Style) -> Seq<char> {
    painted_twice(name, color, Style::Bold, Style::Dimmed) + " "@ + painted(value, color, style)
}

/// A number of tokens, or a dash where it is not known.
pub open spec fn tokens_or_dash(n: Option<u64>, short: spec_fn(u64) -> Seq<char>) -> Seq<char> {
    match n {
        Some(k) => short(k),
        None => "—"@,
    }
}

/// A usage card lists its figures, two spaces between any two: the tokens of
/// the prompt, those of the answer and the number of calls; and, if any tokens
/// were read from the cache or written to it, both of these in between, each
/// with its share of the prompt.
pub proof fn cards_list_their_figures(
    u: JsonTree,
    read: u64,
    written: u64,
    calls: u64,
    indent: Seq<char>,
    color: bool,
    short: spec_fn(u64) -> Seq<char>,
)
    requires
        u.count("cache_read_tokens"@) == Some(read) || (u.count("cache_read_tokens"@) is None
            && read == 0),
        u.count("cache_creation_tokens"@) == Some(written) || (u.count(
            "cache_creation_tokens"@,
        ) is None && written == 0),
        u.uint("api_calls"@) == Some(calls) || (u.uint("api_calls"@) is None && calls == 0),
    ensures
        ({
            let prompt = figure(
                "prompt:"@,
                tokens_or_dash(u.count("prompt_tokens"@), short),
                color,
                Style::BrightGreen,
            );
            let tokens = figure(
                "tokens:"@,
                tokens_or_dash(u.count("completion_tokens"@), short),
                color,
                Style::BrightGreen,
            );
            let api_calls = figure(
                "api_calls:"@,
                decimal(calls as nat),
                color,
                Style::BrightWhite,
            );
            let total: u64 = match u.count("prompt_tokens"@) {
                Some(n) => n,
                None => 0,
            };
            let cache_r = figure(
                "cache_r:"@,
                short(read) + share(read, total),
                color,
                Style::BrightCyan,
            );
            let cache_w = figure(
                "cache_w:"@,
                short(written) + share(written, total),
                color,
                Style::BrightCyan,
            );
            let figures = if read > 0 || written > 0 {
                seq![prompt, cache_r, cache_w, tokens, api_calls]
            } else {
                seq![prompt, tokens, api_calls]
            };
            usage_card(u, indent, color, short) == indent + joined(
                figures,
                figures.len() as int,
                "  "@,
            )
        }),
{
    let total: u64 = match u.count("prompt_tokens"@) {
        Some(n) => n,
        None => 0,
    };
    assert(prompt_total(u) == total);
    let pt = tokens_or_dash(u.count("prompt_tokens"@), short);
    let ct = tokens_or_dash(u.count("completion_tokens"@), short);
    let cr = short(read) + share(read, total);
    let cw = short(written) + share(written, total);
    let n = decimal(calls as nat);
    let prompt = figure("prompt:"@, pt, color, Style::BrightGreen);
    let tokens = figure("tokens:"@, ct, color, Style::BrightGreen);
    let api_calls = figure("api_calls:"@, n, color, Style::BrightWhite);
    let cache_r = figure("cache_r:"@, cr, color, Style::BrightCyan);
    let cache_w = figure("cache_w:"@, cw, color, Style::BrightCyan);
    let sep = "  "@;
    lemma_figure_behind(indent, "prompt:"@, pt, color, Style::BrightGreen);
    if read > 0 || written > 0 {
        let figures = seq![prompt, cache_r, cache_w, tokens, api_calls];
        lemma_joined_behind(indent, figures, 1, sep);
        lemma_joined_behind(indent, figures, 2, sep);
        lemma_joined_behind(indent, figures, 3, sep);
        lemma_joined_behind(indent, figures, 4, sep);
        let x1 = indent + prompt;
        let x2 = x1 + sep + cache_r;
        let x3 = x2 + sep + cache_w;
        let x4 = x3 + sep + tokens;
        lemma_figure_behind(x1 + sep, "cache_r:"@, cr, color, Style::BrightCyan);
        lemma_figure_behind(x2 + sep, "cache_w:"@, cw, color, Style::BrightCyan);
        lemma_figure_behind(x3 + sep, "tokens:"@, ct, color, Style::BrightGreen);
        lemma_figure_behind(x4 + sep, "api_calls:"@, n, color, Style::BrightWhite);
    } else {
        let figures = seq![prompt, tokens, api_calls];
        lemma_joined_behind(indent, figures, 1, sep);
        lemma_joined_behind(indent, figures, 2, sep);
        let x1 = indent + prompt;
        let x2 = x1 + sep + tokens;
        lemma_figure_behind(x1 + sep, "tokens:"@, ct, color, Style::BrightGreen);
        lemma_figure_behind(x2 + sep, "api_calls:"@, n, color, Style::BrightWhite);
    }
}

proof fn lemma_figure_behind(
    x: Seq<char>,
    name: Seq<char>,
    value: Seq<char>,
    color: bool,
    style: Style,
)
    ensures
        x + figure(name, value, color, style) == x + label(name, color) + " "@ + painted(
            value,
            color,
            style,
        ),
{
    assert(x + figure(name, value, color, style) =~= x + label(name, color) + " "@ + painted(
        value,
        color,
        style,
    ));
}

proof fn lemma_joined_behind(x: Seq<char>, ts: Seq<Seq<char>>, n: int, sep: Seq<char>)
    requires
        1 <= n,
    ensures
        joined(ts, 1, sep) == ts[0],
        x + joined(ts, n + 1, sep) == x + joined(ts, n, sep) + sep + ts[n],
{
    assert(x + joined(ts, n + 1, sep) =~= x + joined(ts, n, sep) + sep + ts[n]);
}

/// Labels are bold and dimmed.
pub proof fn labels_are_bold_and_dimmed(s: Seq<char>, color: bool)
    ensures
        label(s, color) == painted_twice(s, color, Style::Bold, Style::Dimmed),
{
}

/// The row of a step shows the figures of that step, each in its column. What
/// is not known is a dash, but nothing in the columns of the cache. The name is
/// cut to its first 21 characters and three dots where it has more than 22.
pub proof fn rows_show_the_figures_of_their_step(
    steps: Seq<JsonTree>,
    i: int,
    short: spec_fn(u64) -> Seq<char>,
)
    requires
        0 <= i < steps.len(),
    ensures
        step_rows(steps, short).len() == steps.len(),
        ({
            let step = steps[i];
            let row = step_rows(steps, short)[i];
            &&& row.prompt == tokens_or_dash(step.count("prompt_tokens"@), short)
            &&& row.tokens == tokens_or_dash(step.count("completion_tokens"@), short)
            &&& step.count("cache_creation_tokens"@) matches Some(n) ==> row.cache_w == short(n)
            &&& step.count("cache_creation_tokens"@) is None ==> row.cache_w.len() == 0
            &&& step.count("cache_read_tokens"@) matches Some(n) ==> row.cache_r == short(n)
            &&& step.count("cache_read_tokens"@) is None ==> row.cache_r.len() == 0
            &&& step.count("wall_ms"@) matches Some(ms) ==> row.wall == wall_text(
                ms as nat,
            )
            &&& step.count("wall_ms"@) is None ==> row.wall == "—"@
            &&& step.text("step"@) matches Some(s) ==> row.name == (if s.len() <= 22 {
                s
            } else {
                s.take(21) + "..."@
            })
            &&& step.text("step"@) is None ==> row.name == "?"@
            &&& step.text("error"@) matches Some(e) ==> row.error == (if trimmed(e).len() > 0 {
                Some(trimmed(e))
            } else {
                None
            })
            &&& step.text("error"@) is None ==> row.error is None
        }),
{
    reveal_strlit("");
    reveal_strlit("?");
}

/// The table has columns for the cache if and only if some step read tokens
/// from it or wrote tokens to it.
pub proof fn cache_columns_follow_the_use_of_the_cache(steps: Seq<JsonTree>)
    ensures
        uses_cache(steps, steps.len() as int) <==> exists|i: int|
            0 <= i < steps.len() && {
                ||| (#[trigger] steps[i]).count("cache_read_tokens"@) matches Some(n) && n > 0
                ||| steps[i].count("cache_creation_tokens"@) matches Some(n) && n > 0
            },
{
}

/// The columns of the table, in order.
pub open spec fn columns(cached: bool) -> Seq<Column> {
    if cached {
        seq![
            Column::Name,
            Column::Prompt,
            Column::CacheR,
            Column::CacheW,
            Column::Tokens,
            Column::Time,
        ]
    } else {
        seq![Column::Name, Column::Prompt, Column::Tokens, Column::Time]
    }
}

/// What stands in a column, how it is headed and in which colour its cells are.
pub proof fn columns_have_heading_contents_and_colour(row: RowView)
    ensures
        heading(Column::Name) == "step"@ && cell(row, Column::Name) == row.name,
        heading(Column::Prompt) == "prompt"@ && cell(row, Column::Prompt) == row.prompt,
        heading(Column::CacheR) == "cache_r"@ && cell(row, Column::CacheR) == row.cache_r,
        heading(Column::CacheW) == "cache_w"@ && cell(row, Column::CacheW) == row.cache_w,
        heading(Column::Tokens) == "tokens"@ && cell(row, Column::Tokens) == row.tokens,
        heading(Column::Time) == "time"@ && cell(row, Column::Time) == row.wall,
        column_style(Column::Name) == Style::Dimmed,
        column_style(Column::Prompt) == Style::BrightGreen,
        column_style(Column::Tokens) == Style::BrightGreen,
        column_style(Column::CacheR) == Style::BrightCyan,
        column_style(Column::CacheW) == Style::BrightCyan,
        column_style(Column::Time) == Style::BrightCyan,
{
}

/// A column is as wide as its heading or its longest text, whichever is longer;
/// that of the names is at least 8 and at most 24 characters wide.
pub proof fn columns_are_as_wide_as_they_need_be(rows: Seq<RowView>, col: Column)
    ensures
        col != Column::Name ==> {
            &&& heading(col).len() <= column_width(rows, col)
            &&& forall|i: int|
                0 <= i < rows.len() ==> (#[trigger] cell(rows[i], col)).len() <= column_width(
                    rows,
                    col,
                )
            &&& column_width(rows, col) == heading(col).len() || exists|i: int|
                0 <= i < rows.len() && (#[trigger] cell(rows[i], col)).len() == column_width(
                    rows,
                    col,
                )
        },
        col == Column::Name ==> {
            &&& 8 <= column_width(rows, col) <= 24
            &&& forall|i: int|
                0 <= i < rows.len() && (#[trigger] cell(rows[i], col)).len() <= 24 ==> cell(
                    rows[i],
                    col,
                ).len() <= column_width(rows, col)
            &&& 8 < column_width(rows, col) < 24 ==> exists|i: int|
                0 <= i < rows.len() && (#[trigger] cell(rows[i], col)).len() == column_width(
                    rows,
                    col,
                )
        },
{
    lemma_widest(rows, rows.len() as int, col);
}

proof fn lemma_widest(rows: Seq<RowView>, n: int, col: Column)
    requires
        0 <= n <= rows.len(),
    ensures
        forall|i: int| 0 <= i < n ==> (#[trigger] cell(rows[i], col)).len() <= widest(rows, n, col),
        widest(rows, n, col) == 0 || exists|i: int|
            0 <= i < n && (#[trigger] cell(rows[i], col)).len() == widest(rows, n, col),
    decreases n,
{
    if n > 0 {
        lemma_widest(rows, n - 1, col);
        let last = cell(rows[n - 1], col);
        if widest(rows, n - 1, col) < last.len() {
            assert(last.len() == widest(rows, n, col));
        } else if widest(rows, n - 1, col) > 0 {
            let i = choose|i: int|
                0 <= i < n - 1 && (#[trigger] cell(rows[i], col)).len() == widest(rows, n - 1, col);
            assert(cell(rows[i], col).len() == widest(rows, n, col));
        }
    }
}

/// Names are aligned to the left and figures to the right of their column.
pub proof fn names_are_aligned_left_and_figures_right(
    rows: Seq<RowView>,
    i: int,
    col: Column,
    color: bool,
)
    ensures
        shown_heading(rows, Column::Name, color) == painted(
            padded_end("step"@, column_width(rows, Column::Name)),
            color,
            Style::Dimmed,
        ),
        shown_cell(rows, i, Column::Name, color) == painted(
            padded_end(cell(rows[i], Column::Name), column_width(rows, Column::Name)),
            color,
            Style::Dimmed,
        ),
        col != Column::Name ==> {
            &&& shown_heading(rows, col, color) == painted(
                padded_start(heading(col), column_width(rows, col)),
                color,
                Style::Dimmed,
            )
            &&& shown_cell(rows, i, col, color) == painted(
                padded_start(cell(rows[i], col), column_width(rows, col)),
                color,
                column_style(col),
            )
        },
{
}

/// The line of headings and the line of a row show the columns from left to
/// right behind the indent, two dimmed spaces between any two.
pub proof fn table_lines_show_the_columns_in_order(
    rows: Seq<RowView>,
    i: int,
    cached: bool,
    indent: Seq<char>,
    color: bool,
)
    ensures
        ({
            let cols = columns(cached);
            let between = painted("  "@, color, Style::Dimmed);
            &&& heading_line(rows, cached, indent, color) == indent + joined(
                Seq::new(cols.len(), |k: int| shown_heading(rows, cols[k], color)),
                cols.len() as int,
                between,
            )
            &&& row_line(rows, i, cached, indent, color) == indent + joined(
                Seq::new(cols.len(), |k: int| shown_cell(rows, i, cols[k], color)),
                cols.len() as int,
                between,
            )
        }),
{
    let cols = columns(cached);
    let between = painted("  "@, color, Style::Dimmed);
    let hs = Seq::new(cols.len(), |k: int| shown_heading(rows, cols[k], color));
    let cs = Seq::new(cols.len(), |k: int| shown_cell(rows, i, cols[k], color));
    assert(gap(color) == between);
    lemma_joined_behind(indent, hs, 1, between);
    lemma_joined_behind(indent, hs, 2, between);
    lemma_joined_behind(indent, hs, 3, between);
    lemma_joined_behind(indent, cs, 1, between);
    lemma_joined_behind(indent, cs, 2, between);
    lemma_joined_behind(indent, cs, 3, between);
    if cached {
        lemma_joined_behind(indent, hs, 4, between);
        lemma_joined_behind(indent, hs, 5, between);
        lemma_joined_behind(indent, cs, 4, between);
        lemma_joined_behind(indent, cs, 5, between);
    }
}

/// The table is the line of headings and, for each step in turn, the line of
/// its row and the lines of its error.
pub proof fn tables_have_a_row_for_each_step(
    steps: Seq<JsonTree>,
    indent: Seq<char>,
    color: bool,
    short: spec_fn(u64) -> Seq<char>,
)
    ensures
        ({
            let rows = step_rows(steps, short);
            let cached = uses_cache(steps, steps.len() as int);
            step_table(steps, indent, color, short) == seq![
                heading_line(rows, cached, indent, color),
            ] + Seq::new(
                steps.len(),
                |i: int|
                    seq![row_line(rows, i, cached, indent, color)] + row_error_lines(
                        rows[i].error,
                        indent,
                        color,
                    ),
            ).flatten()
        }),
{
    lemma_table_rows(
        step_rows(steps, short),
        steps.len(),
        uses_cache(steps, steps.len() as int),
        indent,
        color,
    );
}

proof fn lemma_table_rows(
    rows: Seq<RowView>,
    n: nat,
    cached: bool,
    indent: Seq<char>,
    color: bool,
)
    ensures
        table_upto(rows, n as int, cached, indent, color) == seq![
            heading_line(rows, cached, indent, color),
        ] + Seq::new(
            n,
            |i: int|
                seq![row_line(rows, i, cached, indent, color)] + row_error_lines(
                    rows[i].error,
                    indent,
                    color,
                ),
        ).flatten(),
    decreases n,
{
    let block = |i: int|
        seq![row_line(rows, i, cached, indent, color)] + row_error_lines(
            rows[i].error,
            indent,
            color,
        );
    let all = Seq::new(n, block);
    if n == 0 {
        assert(all.flatten() =~= Seq::<Seq<char>>::empty());
        assert(table_upto(rows, 0, cached, indent, color) =~= seq![
            heading_line(rows, cached, indent, color),
        ] + all.flatten());
    } else {
        let before = Seq::new((n - 1) as nat, block);
        lemma_table_rows(rows, (n - 1) as nat, cached, indent, color);
        assert(all =~= before.push(block(n - 1)));
        before.lemma_flatten_push(block(n - 1));
        lemma_push_and_append(
            seq![heading_line(rows, cached, indent, color)],
            before.flatten(),
            row_line(rows, n - 1, cached, indent, color),
            row_error_lines(rows[n - 1].error, indent, color),
        );
    }
}

proof fn lemma_push_and_append<A>(head: Seq<A>, done: Seq<A>, one: A, more: Seq<A>)
    ensures
        (head + done).push(one) + more == head + (done + (seq![one] + more)),
{
    assert((head + done).push(one) + more =~= head + (done + (seq![one] + more)));
}

/// The error of a step is wrapped to what the indent leaves of 91 characters,
/// but to no less than 20, and shown below its row in red: the first line behind
/// a label, the others aligned with it.
pub proof fn step_errors_are_shown_below_their_row(
    e: Seq<char>,
    indent: Seq<char>,
    color: bool,
)
    ensures
        row_error_lines(None, indent, color).len() == 0,
        ({
            let width: nat = if indent.len() <= 71 {
                (91 - indent.len()) as nat
            } else {
                20
            };
            let ls = wrapped(e, width, width);
            row_error_lines(Some(e), indent, color) == Seq::new(
                ls.len(),
                |i: int|
                    indent + (if i == 0 {
                        "  "@ + painted_twice("error: "@, color, Style::Bold, Style::Red)
                    } else {
                        "  "@ + "       "@
                    }) + painted(ls[i], color, Style::Red),
            )
        }),
{
    let width: nat = if indent.len() <= 71 {
        (91 - indent.len()) as nat
    } else {
        20
    };
    let ls = wrapped(e, width, width);
    lemma_error_lines(ls, ls.len(), indent, color);
}

proof fn lemma_error_lines(ls: Seq<Seq<char>>, n: nat, indent: Seq<char>, color: bool)
    ensures
        error_lines(ls, n as int, indent, color) == Seq::new(
            n,
            |i: int|
                indent + (if i == 0 {
                    "  "@ + painted_twice("error: "@, color, Style::Bold, Style::Red)
                } else {
                    "  "@ + "       "@
                }) + painted(ls[i], color, Style::Red),
        ),
    decreases n,
{
    if n > 0 {
        lemma_error_lines(ls, (n - 1) as nat, indent, color);
    }
    assert(error_lines(ls, n as int, indent, color) =~~= Seq::new(
        n,
        |i: int|
            indent + (if i == 0 {
                "  "@ + painted_twice("error: "@, color, Style::Bold, Style::Red)
            } else {
                "  "@ + "       "@
            }) + painted(ls[i], color, Style::Red),
    ));
}

/// A formatter may be called if it may be called on every number, and a
/// description agrees with it if it says what comes back for every number.
pub proof fn formatters_are_described_by_their_results<F: Fn(u64) -> String>(
    fmt: F,
    short: spec_fn(u64) -> Seq<char>,
)
    ensures
        (forall|n: u64| #[trigger] call_requires(fmt, (n,))) ==> callable(fmt),
        (forall|n: u64, s: String| #[trigger] call_ensures(fmt, (n,), s) ==> s@ == short(n))
            ==> agrees(fmt, short),
{
}

} // verus!
