//! What is shown of a commit's test: the plan, or the summary of a run.

use crate::commit::{plan_list, plan_text, test_plan_array, test_plan_string};
use crate::json::{flag, json, text, JsonTree};
use crate::page::Page;
use crate::style::{paint, painted, Style};
use crate::text::{
    decimal, decimal_text, lines, repeat, repeated, same_text, split_lines, texts, trim, trimmed,
};
use crate::wrap::{wrap_words, wrapped};
use crate::wrap_laws::no_words_in_nothing;
use serde_json::Value;
use vstd::prelude::*;

verus! {

/// The first `n` of `ls`, each behind `indent`.
pub open spec fn indented(indent: Seq<char>, ls: Seq<Seq<char>>, n: int) -> Seq<Seq<char>>
    decreases n,
{
    if n <= 0 {
        Seq::empty()
    } else {
        indented(indent, ls, n - 1).push(indent + ls[n - 1])
    }
}

/// The lines `ls`, each behind `indent`.
fn indent_lines(indent: &str, ls: &Vec<String>) -> (r: Page)
    ensures
        r@ == indented(indent@, texts(ls@), ls@.len() as int),
{
    let mut page = Page::new();
    let mut i: usize = 0;
    while i < ls.len()
        invariant
            i <= ls@.len(),
            page@ == indented(indent@, texts(ls@), i as int),
        decreases ls@.len() - i,
    {
        page.line(String::from_str(indent).concat(ls[i].as_str()));
        i = i + 1;
    }
    page
}

/// The first `n` of the lines `ls` of a labelled text; the label stands in
/// front of the first.
pub open spec fn labelled_upto(
    label: Seq<char>,
    ls: Seq<Seq<char>>,
    n: int,
    color: bool,
) -> Seq<Seq<char>>
    decreases n,
{
    if n <= 0 {
        Seq::empty()
    } else if n == 1 {
        seq!["    "@ + painted(label + ":"@, color, Style::Dimmed) + " "@ + ls[0]]
    } else {
        labelled_upto(label, ls, n - 1, color).push("    "@ + ls[n - 1])
    }
}

/// A text behind its label, wrapped to 70 characters on the first line and to
/// 76 on the others.
pub open spec fn wrapped_label(label: Seq<char>, text: Seq<char>, color: bool) -> Seq<Seq<char>> {
    let ls = wrapped(trimmed(text), 70, 76);
    labelled_upto(label, ls, ls.len() as int, color)
}

proof fn lemma_nothing_to_wrap(first: nat, cont: nat)
    ensures
        wrapped(Seq::<char>::empty(), first, cont) == Seq::<Seq<char>>::empty(),
{
    no_words_in_nothing();
}

/// `text` behind its label.
pub fn print_wrapped_label(label: &str, text: &str, color: bool) -> (r: Page)
    ensures
        r@ == wrapped_label(label@, text@, color),
{
    let mut page = Page::new();
    let trimmed_text = trim(text);
    if trimmed_text.as_str().is_empty() {
        proof {
            assert(trimmed_text@ =~= Seq::<char>::empty());
            lemma_nothing_to_wrap(70, 76);
        }
        return page;
    }
    let ls = wrap_words(trimmed_text.as_str(), 70, 76);
    let mut idx: usize = 0;
    while idx < ls.len()
        invariant
            idx <= ls@.len(),
            page@ == labelled_upto(label@, texts(ls@), idx as int, color),
        decreases ls@.len() - idx,
    {
        if idx == 0 {
            let tag = paint(String::from_str(label).concat(":").as_str(), color, Style::Dimmed);
            page.line(
                String::from_str("    ").concat(tag.as_str()).concat(" ").concat(ls[idx].as_str()),
            );
        } else {
            page.line(String::from_str("    ").concat(ls[idx].as_str()));
        }
        idx = idx + 1;
    }
    page
}

/// What stands in front of entry `idx` of a list.
pub open spec fn marker(idx: int, numbered: bool) -> Seq<char> {
    if numbered {
        decimal((idx + 1) as nat) + "."@
    } else {
        "-"@
    }
}

/// How wide an entry may be behind its marker.
pub open spec fn entry_width(mark: Seq<char>) -> nat {
    if mark.len() + 1 < 76 {
        (76 - (mark.len() + 1)) as nat
    } else {
        0
    }
}

/// The first `n` of the lines `ls` of an entry: the first behind its marker,
/// the others aligned with it.
pub open spec fn entry_upto(mark: Seq<char>, ls: Seq<Seq<char>>, n: int) -> Seq<Seq<char>>
    decreases n,
{
    if n <= 0 {
        Seq::empty()
    } else if n == 1 {
        seq!["      "@ + mark + " "@ + ls[0]]
    } else {
        entry_upto(mark, ls, n - 1).push(
            "      "@ + repeated(' ', mark.len()) + " "@ + ls[n - 1],
        )
    }
}

/// The lines of an entry.
pub open spec fn entry_lines(item: Seq<char>, idx: int, numbered: bool) -> Seq<Seq<char>> {
    let mark = marker(idx, numbered);
    let ls = wrapped(trimmed(item), entry_width(mark), entry_width(mark));
    entry_upto(mark, ls, ls.len() as int)
}

/// The label of a list and its first `n` entries.
pub open spec fn list_upto(
    label: Seq<char>,
    items: Seq<Seq<char>>,
    n: int,
    numbered: bool,
    color: bool,
) -> Seq<Seq<char>>
    decreases n,
{
    if n <= 0 {
        seq!["    "@ + painted(label + ":"@, color, Style::Dimmed)]
    } else {
        list_upto(label, items, n - 1, numbered, color) + entry_lines(
            items[n - 1],
            n - 1,
            numbered,
        )
    }
}

/// A list under its label; nothing where it has no entries.
pub open spec fn plan_list_lines(
    label: Seq<char>,
    items: Seq<Seq<char>>,
    numbered: bool,
    color: bool,
) -> Seq<Seq<char>> {
    if items.len() == 0 {
        Seq::empty()
    } else {
        list_upto(label, items, items.len() as int, numbered, color)
    }
}

fn print_entry(item: &str, idx: usize, numbered: bool) -> (r: Page)
    requires
        idx < usize::MAX,
    ensures
        r@ == entry_lines(item@, idx as int, numbered),
{
    let mut page = Page::new();
    let mark = if numbered {
        decimal_text((idx + 1) as u64).concat(".")
    } else {
        String::from_str("-")
    };
    let mark_len = mark.as_str().unicode_len();
    let width = 76usize.saturating_sub(mark_len).saturating_sub(1);
    let ls = wrap_words(trim(item).as_str(), width, width);
    let mut i: usize = 0;
    while i < ls.len()
        invariant
            i <= ls@.len(),
            mark_len == mark@.len(),
            page@ == entry_upto(mark@, texts(ls@), i as int),
        decreases ls@.len() - i,
    {
        if i == 0 {
            page.line(
                String::from_str("      ").concat(mark.as_str()).concat(" ").concat(
                    ls[i].as_str(),
                ),
            );
        } else {
            page.line(
                String::from_str("      ").concat(repeat(' ', mark_len).as_str()).concat(
                    " ",
                ).concat(ls[i].as_str()),
            );
        }
        i = i + 1;
    }
    page
}

/// The list `items` under its label.
pub fn print_plan_list(label: &str, items: &Vec<String>, numbered: bool, color: bool) -> (r: Page)
    ensures
        r@ == plan_list_lines(label@, texts(items@), numbered, color),
{
    let mut page = Page::new();
    if items.len() == 0 {
        return page;
    }
    let tag = paint(String::from_str(label).concat(":").as_str(), color, Style::Dimmed);
    page.line(String::from_str("    ").concat(tag.as_str()));
    let mut idx: usize = 0;
    while idx < items.len()
        invariant
            idx <= items@.len(),
            page@ == list_upto(label@, texts(items@), idx as int, numbered, color),
        decreases items@.len() - idx,
    {
        page.append(print_entry(items[idx].as_str(), idx, numbered));
        idx = idx + 1;
    }
    page
}

/// A script under its label, its lines as they are; nothing where it is blank.
pub open spec fn plan_script_lines(script: Seq<char>, color: bool) -> Seq<Seq<char>> {
    if trimmed(script).len() == 0 {
        Seq::empty()
    } else {
        seq!["    "@ + painted("script:"@, color, Style::Dimmed)] + indented(
            "      "@,
            lines(script),
            lines(script).len() as int,
        )
    }
}

/// The lines of `script` under its label.
pub fn print_plan_script(script: &str, color: bool) -> (r: Page)
    ensures
        r@ == plan_script_lines(script@, color),
{
    let mut page = Page::new();
    if trim(script).as_str().is_empty() {
        return page;
    }
    page.line(
        String::from_str("    ").concat(paint("script:", color, Style::Dimmed).as_str()),
    );
    page.append(indent_lines("      ", &split_lines(script)));
    page
}

/// `text` behind its label, where there is one.
pub open spec fn optional_label(label: Seq<char>, text: Option<Seq<char>>, color: bool) -> Seq<
    Seq<char>,
> {
    match text {
        Some(t) => wrapped_label(label, t, color),
        None => Seq::empty(),
    }
}

/// A commit's test plan: its description, script, requirements, steps and
/// expected results, and why it is so unless that repeats the description.
pub open spec fn plan_details(c: JsonTree, color: bool) -> Seq<Seq<char>> {
    let description = plan_text(c, "description"@, "test_description"@);
    let rationale = plan_text(c, "rationale"@, "test_rationale"@);
    optional_label("plan"@, description, color) + (match plan_text(c, "script"@, "test_script"@) {
        Some(s) => plan_script_lines(s, color),
        None => Seq::empty(),
    }) + plan_list_lines("requirements"@, plan_list(c, "requirements"@), false, color)
        + plan_list_lines("steps"@, plan_list(c, "steps"@), true, color) + plan_list_lines(
        "expected"@,
        plan_list(c, "expected_results"@),
        false,
        color,
    ) + (if rationale == description {
        Seq::empty()
    } else {
        optional_label("why"@, rationale, color)
    })
}

fn print_optional_label(label: &str, text: &Option<String>, color: bool) -> (r: Page)
    ensures
        r@ == optional_label(
            label@,
            match *text {
                Some(t) => Some(t@),
                None => None,
            },
            color,
        ),
{
    match text {
        Some(t) => print_wrapped_label(label, t.as_str(), color),
        None => Page::new(),
    }
}

/// The test plan of `commit`.
pub fn print_test_plan_details(commit: &Value, color: bool) -> (r: Page)
    ensures
        r@ == plan_details(json(*commit), color),
{
    let description = test_plan_string(commit, "description", "test_description");
    let mut page = print_optional_label("plan", &description, color);
    match test_plan_string(commit, "script", "test_script") {
        Some(script) => page.append(print_plan_script(script.as_str(), color)),
        None => page.append(Page::new()),
    }
    page.append(
        print_plan_list("requirements", &test_plan_array(commit, "requirements"), false, color),
    );
    page.append(print_plan_list("steps", &test_plan_array(commit, "steps"), true, color));
    page.append(
        print_plan_list("expected", &test_plan_array(commit, "expected_results"), false, color),
    );
    let rationale = test_plan_string(commit, "rationale", "test_rationale");
    let repeats = match (&description, &rationale) {
        (Some(d), Some(r)) => same_text(d.as_str(), r.as_str()),
        _ => false,
    };
    if repeats {
        page.append(Page::new());
    } else {
        page.append(print_optional_label("why", &rationale, color));
    }
    page
}

/// What is shown of a test that is only planned: the plan, and that it was not
/// run.
pub open spec fn plan_only_lines(c: JsonTree, color: bool) -> Seq<Seq<char>> {
    plan_details(c, color).push(
        "    "@ + painted("(plan only; test not run)"@, color, Style::Dimmed),
    )
}

/// The test plan of `commit`, and that the test was not run.
pub fn print_plan_only(commit: &Value, color: bool) -> (r: Page)
    ensures
        r@ == plan_only_lines(json(*commit), color),
{
    let mut page = print_test_plan_details(commit, color);
    page.line(
        String::from_str("    ").concat(
            paint("(plan only; test not run)", color, Style::Dimmed).as_str(),
        ),
    );
    page
}

/// Whether the commit's test was skipped because the build failed.
pub open spec fn test_skipped(c: JsonTree) -> bool {
    c.text("boot_status"@) == Some("skipped"@)
}

/// Whether neither the command of the commit's test nor a summary of it is
/// known.
pub open spec fn test_unknown(c: JsonTree) -> bool {
    c.text("test_command"@) is None && c.text("test_summary"@) is None
}

fn is_test_skipped(commit: &Value) -> (r: bool)
    ensures
        r == test_skipped(json(*commit)),
{
    match text(commit, "boot_status") {
        Some(s) => same_text(s, "skipped"),
        None => false,
    }
}

/// Whether there is a plan for the commit's test and nothing else: it was not
/// skipped, and neither its command nor a summary is known.
pub open spec fn bare_plan(c: JsonTree) -> bool {
    c.flag("plan"@) && test_unknown(c) && !test_skipped(c)
}

/// Whether there is nothing but a plan for the test of `commit`.
pub(crate) fn has_bare_plan(commit: &Value) -> (r: bool)
    ensures
        r == bare_plan(json(*commit)),
{
    flag(commit, "plan") && text(commit, "test_command").is_none() && text(
        commit,
        "test_summary",
    ).is_none() && !is_test_skipped(commit)
}

/// What is shown of a commit's test. Nothing where the test was skipped, or
/// neither its command nor a summary is known.
pub open spec fn test_summary_lines(c: JsonTree, color: bool) -> Seq<Seq<char>> {
    let command = c.text("test_command"@);
    let summary = c.text("test_summary"@);
    if test_skipped(c) || test_unknown(c) {
        Seq::empty()
    } else {
        let head = match command {
            Some(s) => seq![
                "    "@ + painted("test:"@, color, Style::Dimmed) + " "@ + painted(
                    s,
                    color,
                    Style::Cyan,
                ),
            ],
            None => Seq::empty(),
        };
        if c.flag("plan"@) {
            head + plan_only_lines(c, color)
        } else {
            match summary {
                Some(s) => {
                    let ls = wrapped(trimmed(s), 76, 76);
                    head + indented("    "@, ls, ls.len() as int)
                },
                None => head,
            }
        }
    }
}

/// What there is to show of the test of `commit`.
pub fn print_test_summary(commit: &Value, color: bool) -> (r: Page)
    ensures
        r@ == test_summary_lines(json(*commit), color),
{
    let mut page = Page::new();
    if is_test_skipped(commit) {
        return page;
    }
    let cmd = text(commit, "test_command");
    let summary = text(commit, "test_summary");
    if cmd.is_none() && summary.is_none() {
        return page;
    }
    if let Some(c) = cmd {
        page.line(
            String::from_str("    ").concat(paint("test:", color, Style::Dimmed).as_str()).concat(
                " ",
            ).concat(paint(c, color, Style::Cyan).as_str()),
        );
    }
    if flag(commit, "plan") {
        page.append(print_plan_only(commit, color));
        return page;
    }
    if let Some(s) = summary {
        let ls = wrap_words(trim(s).as_str(), 76, 76);
        page.append(indent_lines("    ", &ls));
    }
    page
}

} // verus!
