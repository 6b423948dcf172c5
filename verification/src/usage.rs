//! Token usage: the one-line summary and the table of steps.

use crate::format::{fmt_wall_ms, step_name, truncate_step_name, wall_text, FINDING_LINE_MAX};
use crate::json::{count, json, text, trees, uint, viewed, JsonTree};
use crate::page::Page;
use crate::style::{paint, paint_twice, painted, painted_twice, Style};
use crate::text::{
    decimal, decimal_text, pad_end, pad_start, padded_end, padded_start, texts, trim, trimmed,
};
use crate::wrap::{wrap_words, wrapped};
use serde_json::Value;
use vstd::prelude::*;

verus! {

/// Whether `fmt` may be called on every number.
pub open spec fn callable<F: Fn(u64) -> String>(fmt: F) -> bool {
    forall|n: u64| #[trigger] call_requires(fmt, (n,))
}

/// Whether `short` says what `fmt` makes of a token count.
pub open spec fn agrees<F: Fn(u64) -> String>(fmt: F, short: spec_fn(u64) -> Seq<char>) -> bool {
    forall|n: u64, s: String| #[trigger] call_ensures(fmt, (n,), s) ==> s@ == short(n)
}

/// A number of tokens in short form, or `otherwise` where there is none.
pub open spec fn tokens_text(
    n: Option<u64>,
    otherwise: Seq<char>,
    short: spec_fn(u64) -> Seq<char>,
) -> Seq<char> {
    match n {
        Some(k) => short(k),
        None => otherwise,
    }
}

fn short_tokens<F: Fn(u64) -> String + Copy>(n: Option<u64>, otherwise: &str, fmt: F) -> (r: String)
    requires
        callable(fmt),
    ensures
        forall|short: spec_fn(u64) -> Seq<char>| #[trigger]
            agrees(fmt, short) ==> r@ == tokens_text(n, otherwise@, short),
{
    match n {
        Some(k) => fmt(k),
        None => String::from_str(otherwise),
    }
}

/// `n`, or zero where there is no number.
pub open spec fn or_zero(n: Option<u64>) -> u64 {
    match n {
        Some(k) => k,
        None => 0,
    }
}

pub(crate) fn or_0(n: Option<u64>) -> (r: u64)
    ensures
        r == or_zero(n),
{
    match n {
        Some(k) => k,
        None => 0,
    }
}

/// The tokens written to the cache, zero where the figure is missing.
pub open spec fn cache_written(u: JsonTree) -> u64 {
    or_zero(u.count("cache_creation_tokens"@))
}

/// The tokens read from the cache, zero where the figure is missing.
pub open spec fn cache_read(u: JsonTree) -> u64 {
    or_zero(u.count("cache_read_tokens"@))
}

/// The tokens of the prompt, zero where the figure is missing.
pub open spec fn prompt_total(u: JsonTree) -> u64 {
    or_zero(u.count("prompt_tokens"@))
}

/// Whether the cache figures of a summary, taken a hundredfold, fit the
/// machine's integers, as far as a share of the prompt is worked out.
pub open spec fn shares_fit(u: JsonTree) -> bool {
    (cache_written(u) > 0 || cache_read(u) > 0) && prompt_total(u) > 0 ==> {
        &&& cache_written(u) * 100 <= u64::MAX
        &&& cache_read(u) * 100 <= u64::MAX
    }
}

/// Whether the cache figures of `u` can be shown as shares of the prompt.
pub(crate) fn shares_can_be_shown(u: &Value) -> (r: bool)
    ensures
        r == shares_fit(json(*u)),
{
    let cw = or_0(count(u, "cache_creation_tokens"));
    let cr = or_0(count(u, "cache_read_tokens"));
    let total = or_0(count(u, "prompt_tokens"));
    !((cw > 0 || cr > 0) && total > 0) || (cw <= u64::MAX / 100 && cr <= u64::MAX / 100)
}

/// Which share of the prompt `part` is, in whole percent.
pub open spec fn share(part: u64, total: u64) -> Seq<char> {
    if total == 0 {
        Seq::empty()
    } else {
        " ("@ + decimal((part * 100) as nat / total as nat) + " % of prompt)"@
    }
}

fn share_text(part: u64, total: u64) -> (r: String)
    requires
        total > 0 ==> part * 100 <= u64::MAX,
    ensures
        r@ == share(part, total),
{
    if total == 0 {
        return String::new();
    }
    String::from_str(" (").concat(decimal_text(part * 100 / total).as_str()).concat(" % of prompt)")
}

/// A label in front of a figure.
pub open spec fn label(s: Seq<char>, color: bool) -> Seq<char> {
    painted_twice(s, color, Style::Bold, Style::Dimmed)
}

/// A summary of token usage on one line. The cache figures are left out where
/// both are zero.
pub open spec fn usage_card(
    u: JsonTree,
    indent: Seq<char>,
    color: bool,
    short: spec_fn(u64) -> Seq<char>,
) -> Seq<char> {
    let prompt = painted(
        tokens_text(u.count("prompt_tokens"@), "—"@, short),
        color,
        Style::BrightGreen,
    );
    let tokens = painted(
        tokens_text(u.count("completion_tokens"@), "—"@, short),
        color,
        Style::BrightGreen,
    );
    let calls = painted(decimal(or_zero(u.uint("api_calls"@)) as nat), color, Style::BrightWhite);
    let read = cache_read(u);
    let written = cache_written(u);
    if written > 0 || read > 0 {
        indent + label("prompt:"@, color) + " "@ + prompt + "  "@ + label("cache_r:"@, color) + " "@
            + painted(short(read) + share(read, prompt_total(u)), color, Style::BrightCyan) + "  "@
            + label("cache_w:"@, color) + " "@ + painted(
            short(written) + share(written, prompt_total(u)),
            color,
            Style::BrightCyan,
        ) + "  "@ + label("tokens:"@, color) + " "@ + tokens + "  "@ + label("api_calls:"@, color)
            + " "@ + calls
    } else {
        indent + label("prompt:"@, color) + " "@ + prompt + "  "@ + label("tokens:"@, color) + " "@
            + tokens + "  "@ + label("api_calls:"@, color) + " "@ + calls
    }
}

pub(crate) fn labelled(s: &str, color: bool) -> (r: String)
    ensures
        r@ == label(s@, color),
{
    paint_twice(s, color, Style::Bold, Style::Dimmed)
}

/// The one-line summary of the token usage `u`.
pub fn print_usage_card<F: Fn(u64) -> String + Copy>(
    u: &Value,
    indent: &str,
    color: bool,
    fmt_tokens_short: F,
) -> (r: String)
    requires
        callable(fmt_tokens_short),
        shares_fit(json(*u)),
    ensures
        forall|short: spec_fn(u64) -> Seq<char>| #[trigger]
            agrees(fmt_tokens_short, short) ==> r@ == usage_card(json(*u), indent@, color, short),
{
    let pt = count(u, "prompt_tokens");
    let ct = count(u, "completion_tokens");
    let cw = or_0(count(u, "cache_creation_tokens"));
    let cr = or_0(count(u, "cache_read_tokens"));
    let calls = or_0(uint(u, "api_calls"));
    let ps = short_tokens(pt, "—", fmt_tokens_short);
    let cs = short_tokens(ct, "—", fmt_tokens_short);
    let prompt = paint(ps.as_str(), color, Style::BrightGreen);
    let tokens = paint(cs.as_str(), color, Style::BrightGreen);
    let calls = paint(decimal_text(calls).as_str(), color, Style::BrightWhite);
    let head = String::from_str(indent).concat(labelled("prompt:", color).as_str()).concat(
        " ",
    ).concat(prompt.as_str()).concat("  ");
    let head = if cw > 0 || cr > 0 {
        let total = or_0(pt);
        let cr_s = short_tokens(Some(cr), "", fmt_tokens_short).concat(share_text(cr, total).as_str());
        let cw_s = short_tokens(Some(cw), "", fmt_tokens_short).concat(share_text(cw, total).as_str());
        head.concat(labelled("cache_r:", color).as_str()).concat(" ").concat(
            paint(cr_s.as_str(), color, Style::BrightCyan).as_str(),
        ).concat("  ").concat(labelled("cache_w:", color).as_str()).concat(" ").concat(
            paint(cw_s.as_str(), color, Style::BrightCyan).as_str(),
        ).concat("  ")
    } else {
        head
    };
    head.concat(labelled("tokens:", color).as_str()).concat(" ").concat(tokens.as_str()).concat(
        "  ",
    ).concat(labelled("api_calls:", color).as_str()).concat(" ").concat(calls.as_str())
}

/// One row of the table of steps.
pub struct UsageRow {
    pub name: String,
    pub prompt: String,
    pub tokens: String,
    pub cache_w: String,
    pub cache_r: String,
    pub wall: String,
    pub error: Option<String>,
}

/// The texts of a row.
pub struct RowView {
    pub name: Seq<char>,
    pub prompt: Seq<char>,
    pub tokens: Seq<char>,
    pub cache_w: Seq<char>,
    pub cache_r: Seq<char>,
    pub wall: Seq<char>,
    pub error: Option<Seq<char>>,
}

impl View for UsageRow {
    type V = RowView;

    open spec fn view(&self) -> RowView {
        RowView {
            name: self.name@,
            prompt: self.prompt@,
            tokens: self.tokens@,
            cache_w: self.cache_w@,
            cache_r: self.cache_r@,
            wall: self.wall@,
            error: match self.error {
                Some(e) => Some(e@),
                None => None,
            },
        }
    }
}

/// The texts of a list of rows.
pub open spec fn row_views(rows: Seq<UsageRow>) -> Seq<RowView> {
    Seq::new(rows.len(), |i: int| rows[i]@)
}

/// A column of the table.
#[derive(Clone, Copy, Debug, PartialEq, Eq, Structural)]
pub enum Column {
    Name,
    Prompt,
    CacheR,
    CacheW,
    Tokens,
    Time,
}

/// What stands in a column of a row.
pub open spec fn cell(row: RowView, col: Column) -> Seq<char> {
    match col {
        Column::Name => row.name,
        Column::Prompt => row.prompt,
        Column::CacheR => row.cache_r,
        Column::CacheW => row.cache_w,
        Column::Tokens => row.tokens,
        Column::Time => row.wall,
    }
}

/// The heading of a column.
pub open spec fn heading(col: Column) -> Seq<char> {
    match col {
        Column::Name => "step"@,
        Column::Prompt => "prompt"@,
        Column::CacheR => "cache_r"@,
        Column::CacheW => "cache_w"@,
        Column::Tokens => "tokens"@,
        Column::Time => "time"@,
    }
}

/// A text that is there and holds more than white space, without the white
/// space around it.
pub open spec fn content(s: Option<Seq<char>>) -> Option<Seq<char>> {
    match s {
        Some(t) => if trimmed(t).len() > 0 {
            Some(trimmed(t))
        } else {
            None
        },
        None => None,
    }
}

/// The longest step name that is shown whole.
pub const STEP_NAME_MAX: usize = 22;

/// The row of a step: figures that are missing are dashes, or nothing in the
/// cache columns.
pub open spec fn step_row(step: JsonTree, short: spec_fn(u64) -> Seq<char>) -> RowView {
    RowView {
        name: step_name(
            match step.text("step"@) {
                Some(s) => s,
                None => "?"@,
            },
            STEP_NAME_MAX as nat,
        ),
        prompt: tokens_text(step.count("prompt_tokens"@), "—"@, short),
        tokens: tokens_text(step.count("completion_tokens"@), "—"@, short),
        cache_w: tokens_text(step.count("cache_creation_tokens"@), ""@, short),
        cache_r: tokens_text(step.count("cache_read_tokens"@), ""@, short),
        wall: match step.count("wall_ms"@) {
            Some(ms) => wall_text(ms as nat),
            None => "—"@,
        },
        error: content(step.text("error"@)),
    }
}

/// The rows of a list of steps.
pub open spec fn step_rows(steps: Seq<JsonTree>, short: spec_fn(u64) -> Seq<char>) -> Seq<RowView> {
    Seq::new(steps.len(), |i: int| step_row(steps[i], short))
}

/// Whether one of the first `n` steps used the cache.
pub open spec fn uses_cache(steps: Seq<JsonTree>, n: int) -> bool {
    exists|i: int|
        0 <= i < n && (cache_written(#[trigger] steps[i]) > 0 || cache_read(steps[i]) > 0)
}

/// The length of the longest text of a column in the first `n` rows.
pub open spec fn widest(rows: Seq<RowView>, n: int, col: Column) -> nat
    decreases n,
{
    if n <= 0 {
        0
    } else if widest(rows, n - 1, col) < cell(rows[n - 1], col).len() {
        cell(rows[n - 1], col).len()
    } else {
        widest(rows, n - 1, col)
    }
}

/// The width of a column: room for its heading and for its longest text, and
/// for the names between 8 and 24 characters.
pub open spec fn column_width(rows: Seq<RowView>, col: Column) -> nat {
    let w = widest(rows, rows.len() as int, col);
    match col {
        Column::Name => if w < 8 {
            8
        } else if w > 24 {
            24
        } else {
            w
        },
        _ => if w < heading(col).len() {
            heading(col).len()
        } else {
            w
        },
    }
}

/// The colour of a column.
pub open spec fn column_style(col: Column) -> Style {
    match col {
        Column::Name => Style::Dimmed,
        Column::Prompt | Column::Tokens => Style::BrightGreen,
        Column::CacheR | Column::CacheW | Column::Time => Style::BrightCyan,
    }
}

/// A text as it stands in the table: names to the left, figures to the right.
pub open spec fn aligned(s: Seq<char>, width: nat, col: Column) -> Seq<char> {
    match col {
        Column::Name => padded_end(s, width),
        _ => padded_start(s, width),
    }
}

/// The heading of a column as it is shown.
pub open spec fn shown_heading(rows: Seq<RowView>, col: Column, color: bool) -> Seq<char> {
    painted(aligned(heading(col), column_width(rows, col), col), color, Style::Dimmed)
}

/// What stands in a column of row `i` as it is shown.
pub open spec fn shown_cell(rows: Seq<RowView>, i: int, col: Column, color: bool) -> Seq<char> {
    painted(
        aligned(cell(rows[i], col), column_width(rows, col), col),
        color,
        column_style(col),
    )
}

/// What stands between two columns.
pub open spec fn gap(color: bool) -> Seq<char> {
    painted("  "@, color, Style::Dimmed)
}

/// The line of headings.
pub open spec fn heading_line(
    rows: Seq<RowView>,
    cached: bool,
    indent: Seq<char>,
    color: bool,
) -> Seq<char> {
    let left = indent + shown_heading(rows, Column::Name, color) + gap(color) + shown_heading(
        rows,
        Column::Prompt,
        color,
    ) + gap(color);
    let middle = if cached {
        left + shown_heading(rows, Column::CacheR, color) + gap(color) + shown_heading(
            rows,
            Column::CacheW,
            color,
        ) + gap(color)
    } else {
        left
    };
    middle + shown_heading(rows, Column::Tokens, color) + gap(color) + shown_heading(
        rows,
        Column::Time,
        color,
    )
}

/// The line of row `i`.
pub open spec fn row_line(
    rows: Seq<RowView>,
    i: int,
    cached: bool,
    indent: Seq<char>,
    color: bool,
) -> Seq<char> {
    let left = indent + shown_cell(rows, i, Column::Name, color) + gap(color) + shown_cell(
        rows,
        i,
        Column::Prompt,
        color,
    ) + gap(color);
    let middle = if cached {
        left + shown_cell(rows, i, Column::CacheR, color) + gap(color) + shown_cell(
            rows,
            i,
            Column::CacheW,
            color,
        ) + gap(color)
    } else {
        left
    };
    middle + shown_cell(rows, i, Column::Tokens, color) + gap(color) + shown_cell(
        rows,
        i,
        Column::Time,
        color,
    )
}

/// How wide the text of a step's error may be: what the indent and the label
/// leave of a line, and at least 20 characters.
pub open spec fn error_budget(indent: Seq<char>) -> nat {
    let left = FINDING_LINE_MAX - (indent.len() + 2) - 7;
    if left < 20 {
        20
    } else {
        left as nat
    }
}

/// The first `n` of the lines `ls` of a step's error.
pub open spec fn error_lines(
    ls: Seq<Seq<char>>,
    n: int,
    indent: Seq<char>,
    color: bool,
) -> Seq<Seq<char>>
    decreases n,
{
    if n <= 0 {
        Seq::empty()
    } else {
        error_lines(ls, n - 1, indent, color).push(
            if n == 1 {
                indent + "  "@ + painted_twice("error: "@, color, Style::Bold, Style::Red) + painted(
                    ls[0],
                    color,
                    Style::Red,
                )
            } else {
                indent + "  "@ + "       "@ + painted(ls[n - 1], color, Style::Red)
            },
        )
    }
}

/// The lines of a row's error.
pub open spec fn row_error_lines(
    error: Option<Seq<char>>,
    indent: Seq<char>,
    color: bool,
) -> Seq<Seq<char>> {
    match error {
        Some(e) => {
            let ls = wrapped(e, error_budget(indent), error_budget(indent));
            error_lines(ls, ls.len() as int, indent, color)
        },
        None => Seq::empty(),
    }
}

/// The headings and the first `n` rows, each followed by its error.
pub open spec fn table_upto(
    rows: Seq<RowView>,
    n: int,
    cached: bool,
    indent: Seq<char>,
    color: bool,
) -> Seq<Seq<char>>
    decreases n,
{
    if n <= 0 {
        seq![heading_line(rows, cached, indent, color)]
    } else {
        table_upto(rows, n - 1, cached, indent, color).push(
            row_line(rows, n - 1, cached, indent, color),
        ) + row_error_lines(rows[n - 1].error, indent, color)
    }
}

/// The table of `steps`. The cache columns are there if a step used the cache.
pub open spec fn step_table(
    steps: Seq<JsonTree>,
    indent: Seq<char>,
    color: bool,
    short: spec_fn(u64) -> Seq<char>,
) -> Seq<Seq<char>> {
    table_upto(
        step_rows(steps, short),
        steps.len() as int,
        uses_cache(steps, steps.len() as int),
        indent,
        color,
    )
}

/// The text of `s` without the white space around it, if any is left.
pub(crate) fn content_of(s: Option<&str>) -> (r: Option<String>)
    ensures
        match r {
            Some(t) => content(viewed(s)) == Some(t@),
            None => content(viewed(s)) is None,
        },
{
    match s {
        Some(t) => {
            let t = trim(t);
            if t.as_str().is_empty() {
                None
            } else {
                Some(t)
            }
        },
        None => None,
    }
}

fn row_of_step<F: Fn(u64) -> String + Copy>(step: &Value, fmt: F) -> (r: UsageRow)
    requires
        callable(fmt),
    ensures
        forall|short: spec_fn(u64) -> Seq<char>| #[trigger]
            agrees(fmt, short) ==> r@ == step_row(json(*step), short),
{
    let name = match text(step, "step") {
        Some(s) => s,
        None => "?",
    };
    let error = content_of(text(step, "error"));
    let wall = match count(step, "wall_ms") {
        Some(ms) => fmt_wall_ms(ms),
        None => String::from_str("—"),
    };
    UsageRow {
        name: truncate_step_name(name, STEP_NAME_MAX),
        prompt: short_tokens(count(step, "prompt_tokens"), "—", fmt),
        tokens: short_tokens(count(step, "completion_tokens"), "—", fmt),
        cache_w: short_tokens(count(step, "cache_creation_tokens"), "", fmt),
        cache_r: short_tokens(count(step, "cache_read_tokens"), "", fmt),
        wall,
        error,
    }
}

fn cell_of(row: &UsageRow, col: Column) -> (r: &str)
    ensures
        r@ == cell(row@, col),
{
    match col {
        Column::Name => row.name.as_str(),
        Column::Prompt => row.prompt.as_str(),
        Column::CacheR => row.cache_r.as_str(),
        Column::CacheW => row.cache_w.as_str(),
        Column::Tokens => row.tokens.as_str(),
        Column::Time => row.wall.as_str(),
    }
}

fn heading_of(col: Column) -> (r: &'static str)
    ensures
        r@ == heading(col),
{
    match col {
        Column::Name => "step",
        Column::Prompt => "prompt",
        Column::CacheR => "cache_r",
        Column::CacheW => "cache_w",
        Column::Tokens => "tokens",
        Column::Time => "time",
    }
}

fn width_of(rows: &Vec<UsageRow>, col: Column) -> (r: usize)
    ensures
        r == column_width(row_views(rows@), col),
{
    let mut w: usize = 0;
    let mut i: usize = 0;
    while i < rows.len()
        invariant
            i <= rows@.len(),
            w == widest(row_views(rows@), i as int, col),
        decreases rows@.len() - i,
    {
        let n = cell_of(&rows[i], col).unicode_len();
        if w < n {
            w = n;
        }
        i = i + 1;
    }
    match col {
        Column::Name => if w < 8 {
            8
        } else if w > 24 {
            24
        } else {
            w
        },
        _ => {
            let n = heading_of(col).unicode_len();
            if w < n {
                n
            } else {
                w
            }
        },
    }
}

fn align(s: &str, width: usize, col: Column) -> (r: String)
    ensures
        r@ == aligned(s@, width as nat, col),
{
    match col {
        Column::Name => pad_end(s, width),
        _ => pad_start(s, width),
    }
}

/// The widths of the columns of a table.
struct Widths {
    name: usize,
    prompt: usize,
    cache_r: usize,
    cache_w: usize,
    tokens: usize,
    time: usize,
}

impl Widths {
    spec fn measured(self, rows: Seq<RowView>) -> bool {
        &&& self.name == column_width(rows, Column::Name)
        &&& self.prompt == column_width(rows, Column::Prompt)
        &&& self.cache_r == column_width(rows, Column::CacheR)
        &&& self.cache_w == column_width(rows, Column::CacheW)
        &&& self.tokens == column_width(rows, Column::Tokens)
        &&& self.time == column_width(rows, Column::Time)
    }

    fn measure(rows: &Vec<UsageRow>) -> (r: Widths)
        ensures
            r.measured(row_views(rows@)),
    {
        Widths {
            name: width_of(rows, Column::Name),
            prompt: width_of(rows, Column::Prompt),
            cache_r: width_of(rows, Column::CacheR),
            cache_w: width_of(rows, Column::CacheW),
            tokens: width_of(rows, Column::Tokens),
            time: width_of(rows, Column::Time),
        }
    }

    fn of(&self, col: Column, Ghost(rows): Ghost<Seq<RowView>>) -> (r: usize)
        requires
            self.measured(rows),
        ensures
            r == column_width(rows, col),
    {
        match col {
            Column::Name => self.name,
            Column::Prompt => self.prompt,
            Column::CacheR => self.cache_r,
            Column::CacheW => self.cache_w,
            Column::Tokens => self.tokens,
            Column::Time => self.time,
        }
    }
}

fn show_heading(widths: &Widths, rows: &Vec<UsageRow>, col: Column, color: bool) -> (r: String)
    requires
        widths.measured(row_views(rows@)),
    ensures
        r@ == shown_heading(row_views(rows@), col, color),
{
    let width = widths.of(col, Ghost(row_views(rows@)));
    paint(align(heading_of(col), width, col).as_str(), color, Style::Dimmed)
}

fn style_of(col: Column) -> (r: Style)
    ensures
        r == column_style(col),
{
    match col {
        Column::Name => Style::Dimmed,
        Column::Prompt | Column::Tokens => Style::BrightGreen,
        Column::CacheR | Column::CacheW | Column::Time => Style::BrightCyan,
    }
}

fn show_cell(widths: &Widths, rows: &Vec<UsageRow>, i: usize, col: Column, color: bool) -> (r:
    String)
    requires
        i < rows@.len(),
        widths.measured(row_views(rows@)),
    ensures
        r@ == shown_cell(row_views(rows@), i as int, col, color),
{
    let width = widths.of(col, Ghost(row_views(rows@)));
    paint(align(cell_of(&rows[i], col), width, col).as_str(), color, style_of(col))
}

fn show_headings(
    widths: &Widths,
    rows: &Vec<UsageRow>,
    cached: bool,
    indent: &str,
    color: bool,
) -> (r: String)
    requires
        widths.measured(row_views(rows@)),
    ensures
        r@ == heading_line(row_views(rows@), cached, indent@, color),
{
    let gap = paint("  ", color, Style::Dimmed);
    let gap = gap.as_str();
    let left = String::from_str(indent).concat(
        show_heading(widths, rows, Column::Name, color).as_str(),
    ).concat(gap).concat(show_heading(widths, rows, Column::Prompt, color).as_str()).concat(gap);
    let middle = if cached {
        left.concat(show_heading(widths, rows, Column::CacheR, color).as_str()).concat(gap).concat(
            show_heading(widths, rows, Column::CacheW, color).as_str(),
        ).concat(gap)
    } else {
        left
    };
    middle.concat(show_heading(widths, rows, Column::Tokens, color).as_str()).concat(gap).concat(
        show_heading(widths, rows, Column::Time, color).as_str(),
    )
}

fn show_row(
    widths: &Widths,
    rows: &Vec<UsageRow>,
    i: usize,
    cached: bool,
    indent: &str,
    color: bool,
) -> (r: String)
    requires
        i < rows@.len(),
        widths.measured(row_views(rows@)),
    ensures
        r@ == row_line(row_views(rows@), i as int, cached, indent@, color),
{
    let gap = paint("  ", color, Style::Dimmed);
    let gap = gap.as_str();
    let left = String::from_str(indent).concat(
        show_cell(widths, rows, i, Column::Name, color).as_str(),
    ).concat(gap).concat(show_cell(widths, rows, i, Column::Prompt, color).as_str()).concat(gap);
    let middle = if cached {
        left.concat(show_cell(widths, rows, i, Column::CacheR, color).as_str()).concat(gap).concat(
            show_cell(widths, rows, i, Column::CacheW, color).as_str(),
        ).concat(gap)
    } else {
        left
    };
    middle.concat(show_cell(widths, rows, i, Column::Tokens, color).as_str()).concat(gap).concat(
        show_cell(widths, rows, i, Column::Time, color).as_str(),
    )
}

fn show_row_error(error: &Option<String>, indent: &str, color: bool) -> (r: Page)
    ensures
        r@ == row_error_lines(
            match *error {
                Some(e) => Some(e@),
                None => None,
            },
            indent@,
            color,
        ),
{
    let mut page = Page::new();
    if let Some(e) = error {
        let left = FINDING_LINE_MAX.saturating_sub(indent.unicode_len()).saturating_sub(
            2,
        ).saturating_sub(7);
        let budget: usize = if left < 20 { 20 } else { left };
        let ls = wrap_words(e.as_str(), budget, budget);
        let mut i: usize = 0;
        while i < ls.len()
            invariant
                i <= ls@.len(),
                page@ == error_lines(texts(ls@), i as int, indent@, color),
            decreases ls@.len() - i,
        {
            let cont = String::from_str(indent).concat("  ");
            let line = paint(ls[i].as_str(), color, Style::Red);
            if i == 0 {
                page.line(
                    cont.concat(
                        paint_twice("error: ", color, Style::Bold, Style::Red).as_str(),
                    ).concat(line.as_str()),
                );
            } else {
                page.line(cont.concat("       ").concat(line.as_str()));
            }
            i = i + 1;
        }
    }
    page
}

/// The table of `steps`, one row for each.
pub fn print_step_table<F: Fn(u64) -> String + Copy>(
    steps: &Vec<Value>,
    indent: &str,
    color: bool,
    fmt_tokens_short: F,
) -> (r: Page)
    requires
        callable(fmt_tokens_short),
    ensures
        forall|short: spec_fn(u64) -> Seq<char>| #[trigger]
            agrees(fmt_tokens_short, short) ==> r@ == step_table(
                trees(steps@),
                indent@,
                color,
                short,
            ),
{
    let ghost ts = trees(steps@);
    let mut rows: Vec<UsageRow> = Vec::new();
    let mut any_cache = false;
    let mut i: usize = 0;
    while i < steps.len()
        invariant
            i <= steps@.len(),
            callable(fmt_tokens_short),
            ts == trees(steps@),
            rows@.len() == i,
            any_cache == uses_cache(ts, i as int),
            forall|short: spec_fn(u64) -> Seq<char>, j: int|
                #![trigger agrees(fmt_tokens_short, short), rows@[j]]
                agrees(fmt_tokens_short, short) && 0 <= j < i ==> rows@[j]@ == step_row(
                    ts[j],
                    short,
                ),
        decreases steps@.len() - i,
    {
        let step = &steps[i];
        assert(ts[i as int] == json(*step));
        if or_0(count(step, "cache_creation_tokens")) > 0 || or_0(
            count(step, "cache_read_tokens"),
        ) > 0 {
            any_cache = true;
        }
        rows.push(row_of_step(step, fmt_tokens_short));
        i = i + 1;
    }
    proof {
        assert forall|short: spec_fn(u64) -> Seq<char>| #[trigger]
            agrees(fmt_tokens_short, short) implies row_views(rows@) == step_rows(ts, short) by {
            assert forall|j: int| 0 <= j < rows@.len() implies row_views(rows@)[j] == step_rows(
                ts,
                short,
            )[j] by {
                assert(rows@[j]@ == step_row(ts[j], short));
            }
            assert(row_views(rows@) =~= step_rows(ts, short));
        }
    }

    let widths = Widths::measure(&rows);
    let mut page = Page::new();
    page.line(show_headings(&widths, &rows, any_cache, indent, color));
    let mut i: usize = 0;
    while i < rows.len()
        invariant
            i <= rows@.len(),
            widths.measured(row_views(rows@)),
            page@ == table_upto(row_views(rows@), i as int, any_cache, indent@, color),
        decreases rows@.len() - i,
    {
        page.line(show_row(&widths, &rows, i, any_cache, indent, color));
        page.append(show_row_error(&rows[i].error, indent, color));
        i = i + 1;
    }
    page
}

} // verus!
