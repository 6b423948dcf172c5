//! What is shown of a commit's test, line by line.

use crate::commit::{plan_list, plan_text};
use crate::json::JsonTree;
use crate::plan::{
    bare_plan, entry_lines, entry_upto, indented, labelled_upto, list_upto, optional_label,
    plan_details,
    plan_list_lines, plan_only_lines, plan_script_lines, test_summary_lines, wrapped_label,
};
use crate::style::{painted, Style};
use crate::text::{decimal, lines, repeated, trimmed, words};
use crate::text_laws::trimming_keeps_the_words;
use crate::wrap::wrapped;
use crate::wrap_laws::lemma_blank_has_no_words;
use vstd::prelude::*;

verus! {

/// Indented lines are the given ones, each behind the indent.
pub proof fn indented_lines_are_the_lines(indent: Seq<char>, ls: Seq<Seq<char>>, n: nat)
    ensures
        indented(indent, ls, n as int) == Seq::new(n, |i: int| indent + ls[i]),
    decreases n,
{
    if n > 0 {
        indented_lines_are_the_lines(indent, ls, (n - 1) as nat);
    }
    assert(indented(indent, ls, n as int) =~= Seq::new(n, |i: int| indent + ls[i]));
}

/// A labelled text is wrapped to 70 characters on its first line and to 76 on
/// the others. Every line is indented, and the first has the label in front.
pub proof fn labels_stand_in_front_of_the_first_line(
    label: Seq<char>,
    text: Seq<char>,
    color: bool,
)
    ensures
        wrapped_label(label, text, color) == Seq::new(
            wrapped(text, 70, 76).len(),
            |i: int|
                "    "@ + (if i == 0 {
                    painted(label + ":"@, color, Style::Dimmed) + " "@
                } else {
                    Seq::empty()
                }) + wrapped(text, 70, 76)[i],
        ),
{
    trimming_keeps_the_words(text);
    lemma_labelled(label, wrapped(text, 70, 76), wrapped(text, 70, 76).len(), color);
}

proof fn lemma_labelled(label: Seq<char>, ls: Seq<Seq<char>>, n: nat, color: bool)
    ensures
        labelled_upto(label, ls, n as int, color) == Seq::new(
            n,
            |i: int|
                "    "@ + (if i == 0 {
                    painted(label + ":"@, color, Style::Dimmed) + " "@
                } else {
                    Seq::empty()
                }) + ls[i],
        ),
    decreases n,
{
    if n > 0 {
        lemma_labelled(label, ls, (n - 1) as nat, color);
    }
    assert(labelled_upto(label, ls, n as int, color) =~~= Seq::new(
        n,
        |i: int|
            "    "@ + (if i == 0 {
                painted(label + ":"@, color, Style::Dimmed) + " "@
            } else {
                Seq::empty()
            }) + ls[i],
    ));
}

/// An entry of a list is wrapped to 76 characters together with its marker,
/// which is a dash or the entry's number. The marker stands in front of the
/// first line, as many spaces in front of the others.
pub proof fn entries_stand_behind_their_marker(
    item: Seq<char>,
    idx: nat,
    numbered: bool,
    mark: Seq<char>,
)
    requires
        numbered ==> mark == decimal(idx + 1) + "."@,
        !numbered ==> mark == "-"@,
        mark.len() < 75,
    ensures
        ({
            let ls = wrapped(item, (75 - mark.len()) as nat, (75 - mark.len()) as nat);
            entry_lines(item, idx as int, numbered) == Seq::new(
                ls.len(),
                |i: int|
                    "      "@ + (if i == 0 {
                        mark
                    } else {
                        repeated(' ', mark.len())
                    }) + " "@ + ls[i],
            )
        }),
{
    trimming_keeps_the_words(item);
    let ls = wrapped(item, (75 - mark.len()) as nat, (75 - mark.len()) as nat);
    lemma_entry(mark, ls, ls.len());
}

proof fn lemma_entry(mark: Seq<char>, ls: Seq<Seq<char>>, n: nat)
    ensures
        entry_upto(mark, ls, n as int) == Seq::new(
            n,
            |i: int|
                "      "@ + (if i == 0 {
                    mark
                } else {
                    repeated(' ', mark.len())
                }) + " "@ + ls[i],
        ),
    decreases n,
{
    if n > 0 {
        lemma_entry(mark, ls, (n - 1) as nat);
    }
    assert(entry_upto(mark, ls, n as int) =~~= Seq::new(
        n,
        |i: int|
            "      "@ + (if i == 0 {
                mark
            } else {
                repeated(' ', mark.len())
            }) + " "@ + ls[i],
    ));
}

/// A list shows its label and then each of its entries in turn; a list without
/// entries shows nothing.
pub proof fn lists_show_each_entry(
    label: Seq<char>,
    items: Seq<Seq<char>>,
    numbered: bool,
    color: bool,
)
    ensures
        items.len() == 0 ==> plan_list_lines(label, items, numbered, color).len() == 0,
        items.len() > 0 ==> plan_list_lines(label, items, numbered, color) == seq![
            "    "@ + painted(label + ":"@, color, Style::Dimmed),
        ] + Seq::new(items.len(), |i: int| entry_lines(items[i], i, numbered)).flatten(),
{
    lemma_list(label, items, items.len(), numbered, color);
}

proof fn lemma_list(
    label: Seq<char>,
    items: Seq<Seq<char>>,
    n: nat,
    numbered: bool,
    color: bool,
)
    ensures
        list_upto(label, items, n as int, numbered, color) == seq![
            "    "@ + painted(label + ":"@, color, Style::Dimmed),
        ] + Seq::new(n, |i: int| entry_lines(items[i], i, numbered)).flatten(),
    decreases n,
{
    let block = |i: int| entry_lines(items[i], i, numbered);
    let all = Seq::new(n, block);
    let head = seq!["    "@ + painted(label + ":"@, color, Style::Dimmed)];
    if n == 0 {
        assert(head + all.flatten() =~= head);
    } else {
        let before = Seq::new((n - 1) as nat, block);
        lemma_list(label, items, (n - 1) as nat, numbered, color);
        assert(all =~= before.push(block(n - 1)));
        before.lemma_flatten_push(block(n - 1));
        assert(list_upto(label, items, n as int, numbered, color) =~= head + all.flatten());
    }
}

/// A script is shown line by line as it is, indented below its label; one
/// without words is not shown.
pub proof fn scripts_are_shown_line_by_line(script: Seq<char>, color: bool)
    ensures
        words(script).len() == 0 ==> plan_script_lines(script, color).len() == 0,
        words(script).len() > 0 ==> plan_script_lines(script, color) == seq![
            "    "@ + painted("script:"@, color, Style::Dimmed),
        ] + Seq::new(lines(script).len(), |i: int| "      "@ + lines(script)[i]),
{
    lemma_blank_has_no_words(script);
    indented_lines_are_the_lines("      "@, lines(script), lines(script).len());
}

/// `text` behind its label, nothing where there is no text.
pub open spec fn labelled_text(label: Seq<char>, text: Option<Seq<char>>, color: bool) -> Seq<
    Seq<char>,
> {
    match text {
        Some(t) => wrapped_label(label, t, color),
        None => Seq::empty(),
    }
}

/// The parts of a test plan: what is planned, the script, what it needs, its
/// steps, what is expected, and why; the last unless it repeats the first.
pub open spec fn plan_parts(c: JsonTree, color: bool) -> Seq<Seq<Seq<char>>> {
    let what = plan_text(c, "description"@, "test_description"@);
    let why = plan_text(c, "rationale"@, "test_rationale"@);
    seq![
        labelled_text("plan"@, what, color),
        match plan_text(c, "script"@, "test_script"@) {
            Some(s) => plan_script_lines(s, color),
            None => Seq::empty(),
        },
        plan_list_lines("requirements"@, plan_list(c, "requirements"@), false, color),
        plan_list_lines("steps"@, plan_list(c, "steps"@), true, color),
        plan_list_lines("expected"@, plan_list(c, "expected_results"@), false, color),
        if what is Some && why == what {
            Seq::empty()
        } else {
            labelled_text("why"@, why, color)
        },
    ]
}

/// A test plan shows its parts in order.
pub proof fn plans_show_their_parts_in_order(c: JsonTree, color: bool)
    ensures
        plan_details(c, color) == plan_parts(c, color).flatten(),
{
    let what = plan_text(c, "description"@, "test_description"@);
    let why = plan_text(c, "rationale"@, "test_rationale"@);
    let script = match plan_text(c, "script"@, "test_script"@) {
        Some(s) => plan_script_lines(s, color),
        None => Seq::empty(),
    };
    let last = if what is Some && why == what {
        Seq::empty()
    } else {
        labelled_text("why"@, why, color)
    };
    let needs = plan_list_lines("requirements"@, plan_list(c, "requirements"@), false, color);
    let steps = plan_list_lines("steps"@, plan_list(c, "steps"@), true, color);
    let expected = plan_list_lines("expected"@, plan_list(c, "expected_results"@), false, color);
    let first = labelled_text("plan"@, what, color);
    lemma_flatten_six(first, script, needs, steps, expected, last);
    assert(plan_parts(c, color) =~= seq![first, script, needs, steps, expected, last]);
    assert(first == optional_label("plan"@, what, color));
    assert(last == if why == what {
        Seq::empty()
    } else {
        optional_label("why"@, why, color)
    });
}

proof fn lemma_flatten_six<A>(
    a: Seq<A>,
    b: Seq<A>,
    c: Seq<A>,
    d: Seq<A>,
    e: Seq<A>,
    f: Seq<A>,
)
    ensures
        seq![a, b, c, d, e, f].flatten() == a + b + c + d + e + f,
{
    let none = Seq::<Seq<A>>::empty();
    none.lemma_flatten_push(a);
    none.push(a).lemma_flatten_push(b);
    none.push(a).push(b).lemma_flatten_push(c);
    none.push(a).push(b).push(c).lemma_flatten_push(d);
    none.push(a).push(b).push(c).push(d).lemma_flatten_push(e);
    none.push(a).push(b).push(c).push(d).push(e).lemma_flatten_push(f);
    assert(none.flatten() + a =~= a);
    assert(seq![a, b, c, d, e, f] =~= none.push(a).push(b).push(c).push(d).push(e).push(f));
}

/// A test that is only planned shows its plan, and last that it was not run.
pub proof fn plans_end_with_that_the_test_was_not_run(c: JsonTree, color: bool)
    ensures
        plan_only_lines(c, color).drop_last() == plan_details(c, color),
        plan_only_lines(c, color).last() == "    "@ + painted(
            "(plan only; test not run)"@,
            color,
            Style::Dimmed,
        ),
        bare_plan(c) <==> c.flag("plan"@) && c.text("test_command"@) is None && c.text(
            "test_summary"@,
        ) is None && c.text("boot_status"@) != Some("skipped"@),
{
    assert(plan_only_lines(c, color).drop_last() =~= plan_details(c, color));
}

/// Of a test of which the command or a summary is known, and which was not
/// skipped, the command is shown first. The plan follows if the test is only
/// planned, and else the summary, wrapped to 76 characters and indented.
pub proof fn tests_show_command_and_outcome(c: JsonTree, color: bool)
    requires
        c.text("boot_status"@) != Some("skipped"@),
        c.text("test_command"@) is Some || c.text("test_summary"@) is Some,
    ensures
        ({
            let head = match c.text("test_command"@) {
                Some(s) => seq![
                    "    "@ + painted("test:"@, color, Style::Dimmed) + " "@ + painted(
                        s,
                        color,
                        Style::Cyan,
                    ),
                ],
                None => Seq::empty(),
            };
            let shown = test_summary_lines(c, color);
            &&& shown.take(head.len() as int) == head
            &&& c.flag("plan"@) ==> shown.skip(head.len() as int) == plan_only_lines(c, color)
            &&& !c.flag("plan"@) && c.text("test_summary"@) is None ==> shown == head
            &&& !c.flag("plan"@) ==> (c.text("test_summary"@) matches Some(s) ==> shown.skip(
                head.len() as int,
            ) == Seq::new(wrapped(s, 76, 76).len(), |i: int| "    "@ + wrapped(s, 76, 76)[i]))
        }),
{
    let head = match c.text("test_command"@) {
        Some(s) => seq![
            "    "@ + painted("test:"@, color, Style::Dimmed) + " "@ + painted(
                s,
                color,
                Style::Cyan,
            ),
        ],
        None => Seq::empty(),
    };
    let shown = test_summary_lines(c, color);
    assert(shown.take(head.len() as int) =~= head);
    if c.flag("plan"@) {
        assert(shown.skip(head.len() as int) =~= plan_only_lines(c, color));
    } else {
        match c.text("test_summary"@) {
            Some(s) => {
                trimming_keeps_the_words(s);
                assert(wrapped(trimmed(s), 76, 76) == wrapped(s, 76, 76));
                indented_lines_are_the_lines(
                    "    "@,
                    wrapped(s, 76, 76),
                    wrapped(s, 76, 76).len(),
                );
                assert(shown.skip(head.len() as int) =~= Seq::new(
                    wrapped(s, 76, 76).len(),
                    |i: int| "    "@ + wrapped(s, 76, 76)[i],
                ));
            },
            None => {},
        }
    }
}

} // verus!
