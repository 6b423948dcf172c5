//! What wrapping keeps and what it bounds.

use crate::text::{
    is_blank, is_line_feed, joined, lines, non_empty, split, trimmed, trimmed_end, trimmed_start,
    white_space, without_cr, words,
};
use crate::text_laws::{
    lemma_joined_prefix, lemma_trailing_white_space, line_feeds_part_lines,
    text_without_line_feed_is_one_line, trimming_keeps_the_words, white_space_parts_words,
};
use crate::wrap::{
    at_least_one, blank, chunks, cut, filled, lemma_wrapped_each_prefix, paragraphs, wrapped,
    wrapped_body, wrapped_each,
};
use vstd::prelude::*;

verus! {

/// Cutting a text into pieces of `n` characters keeps it whole: the pieces put
/// together are the text, each but the last has `n` characters, and none is
/// empty.
pub proof fn chunks_keep_the_text(s: Seq<char>, n: nat)
    requires
        n > 0,
    ensures
        chunks(s, n).flatten() == s,
        forall|i: int| 0 <= i < chunks(s, n).len() - 1 ==> (#[trigger] chunks(s, n)[i]).len() == n,
        forall|i: int|
            0 <= i < chunks(s, n).len() ==> 0 < (#[trigger] chunks(s, n)[i]).len() <= n,
    decreases s.len(),
{
    let cs = chunks(s, n);
    if s.len() == 0 {
        assert(cs.flatten() =~= s);
    } else if s.len() <= n {
        assert(cs.drop_first() =~= Seq::<Seq<char>>::empty());
        assert(cs.drop_first().flatten() =~= Seq::<char>::empty());
        assert(cs.flatten() =~= s);
    } else {
        let rest = chunks(s.skip(n as int), n);
        chunks_keep_the_text(s.skip(n as int), n);
        assert(cs.drop_first() =~= rest);
        assert(cs.flatten() =~= s);
        assert forall|i: int| 0 <= i < cs.len() - 1 implies (#[trigger] cs[i]).len() == n by {
            if i > 0 {
                assert(cs[i] == rest[i - 1]);
            }
        }
        assert forall|i: int| 0 <= i < cs.len() implies 0 < (#[trigger] cs[i]).len() <= n by {
            if i > 0 {
                assert(cs[i] == rest[i - 1]);
            }
        }
    }
}

/// Whether `w` is a word: not empty and without white space.
pub open spec fn is_word(w: Seq<char>) -> bool {
    &&& w.len() > 0
    &&& forall|j: int| 0 <= j < w.len() ==> !white_space(#[trigger] w[j])
}

/// Whether every member of `ws` is a word.
pub open spec fn all_words(ws: Seq<Seq<char>>) -> bool {
    forall|i: int| 0 <= i < ws.len() ==> is_word(#[trigger] ws[i])
}

/// Whether the first of `ls` has between one and `first` characters, and each
/// of the others between one and `cont`.
pub open spec fn fit(ls: Seq<Seq<char>>, first: nat, cont: nat) -> bool {
    forall|i: int|
        0 <= i < ls.len() ==> 0 < (#[trigger] ls[i]).len() <= (if i == 0 {
            first
        } else {
            cont
        })
}

/// No piece of a text split at white space holds white space.
proof fn lemma_split_solid(s: Seq<char>)
    ensures
        split(s, is_blank()).len() > 0,
        forall|i: int, j: int|
            0 <= i < split(s, is_blank()).len() && 0 <= j < split(s, is_blank())[i].len()
                ==> !white_space(#[trigger] split(s, is_blank())[i][j]),
    decreases s.len(),
{
    if s.len() > 0 {
        lemma_split_solid(s.drop_last());
    }
}

proof fn lemma_non_empty_words(ps: Seq<Seq<char>>)
    requires
        forall|i: int, j: int|
            0 <= i < ps.len() && 0 <= j < ps[i].len() ==> !white_space(#[trigger] ps[i][j]),
    ensures
        all_words(non_empty(ps)),
    decreases ps.len(),
{
    if ps.len() > 0 {
        assert forall|i: int, j: int|
            0 <= i < ps.drop_last().len() && 0 <= j < ps.drop_last()[i].len() implies !white_space(
            #[trigger] ps.drop_last()[i][j],
        ) by {
            assert(ps.drop_last()[i] == ps[i]);
            assert(!white_space(ps[i][j]));
        }
        lemma_non_empty_words(ps.drop_last());
        assert forall|j: int| 0 <= j < ps.last().len() implies !white_space(
            #[trigger] ps.last()[j],
        ) by {
            assert(!white_space(ps[ps.len() - 1][j]));
        }
    }
}

/// The words of a text are words: none is empty and none holds white space.
pub proof fn words_are_words(s: Seq<char>)
    ensures
        all_words(words(s)),
{
    lemma_split_solid(s);
    lemma_non_empty_words(split(s, is_blank()));
}

proof fn lemma_filled_fit(ws: Seq<Seq<char>>, cur: Seq<char>, width: nat, cont: nat)
    requires
        all_words(ws),
        cur.len() <= width,
        0 < width,
        0 < cont,
    ensures
        fit(filled(ws, cur, width, cont), width, cont),
    decreases ws.len(), cur.len(),
{
    let r = filled(ws, cur, width, cont);
    if ws.len() > 0 {
        assert(is_word(ws[0]));
        assert(all_words(ws.drop_first())) by {
            assert forall|i: int| 0 <= i < ws.drop_first().len() implies is_word(
                #[trigger] ws.drop_first()[i],
            ) by {
                assert(ws.drop_first()[i] == ws[i + 1]);
            }
        }
        if cur.len() == 0 {
            if ws[0].len() > width {
                let n: nat = if width <= cont { width } else { cont };
                let pieces = chunks(ws[0].skip(width as int), n);
                let head = cut(ws[0], width, cont);
                let tail = filled(ws.drop_first(), Seq::empty(), cont, cont);
                chunks_keep_the_text(ws[0].skip(width as int), n);
                lemma_filled_fit(ws.drop_first(), Seq::empty(), cont, cont);
                assert forall|i: int| 0 <= i < r.len() implies 0 < (#[trigger] r[i]).len() <= (
                if i == 0 {
                    width
                } else {
                    cont
                }) by {
                    if 0 < i < head.len() {
                        assert(r[i] == pieces[i - 1]);
                    } else if i >= head.len() {
                        assert(r[i] == tail[i - head.len()]);
                    }
                }
            } else {
                lemma_filled_fit(ws.drop_first(), ws[0], width, cont);
            }
        } else if cur.len() + 1 + ws[0].len() > width {
            let tail = filled(ws, Seq::empty(), cont, cont);
            lemma_filled_fit(ws, Seq::empty(), cont, cont);
            assert forall|i: int| 0 <= i < r.len() implies 0 < (#[trigger] r[i]).len() <= (if i
                == 0 {
                width
            } else {
                cont
            }) by {
                if i > 0 {
                    assert(r[i] == tail[i - 1]);
                }
            }
        } else {
            lemma_filled_fit(ws.drop_first(), cur.push(' ') + ws[0], width, cont);
        }
    }
}

/// No line is wider than it may be: the first has at most `first` characters,
/// every other at most `cont` (where zero counts as one), and none is empty.
pub proof fn wrapped_lines_fit(text: Seq<char>, first: nat, cont: nat)
    ensures
        fit(wrapped(text, first, cont), at_least_one(first), at_least_one(cont)),
{
    words_are_words(text);
    lemma_filled_fit(words(text), Seq::empty(), at_least_one(first), at_least_one(cont));
}

/// `s` without its white space.
pub open spec fn solid(s: Seq<char>) -> Seq<char>
    decreases s.len(),
{
    if s.len() == 0 {
        Seq::empty()
    } else if white_space(s.last()) {
        solid(s.drop_last())
    } else {
        solid(s.drop_last()).push(s.last())
    }
}

/// The members of `ls` one after the other, without their white space.
pub open spec fn all_solid(ls: Seq<Seq<char>>) -> Seq<char>
    decreases ls.len(),
{
    if ls.len() == 0 {
        Seq::empty()
    } else {
        all_solid(ls.drop_last()) + solid(ls.last())
    }
}

pub(crate) proof fn lemma_solid_concat(a: Seq<char>, b: Seq<char>)
    ensures
        solid(a + b) == solid(a) + solid(b),
    decreases b.len(),
{
    if b.len() == 0 {
        assert(a + b =~= a);
        assert(solid(a) + solid(b) =~= solid(a));
    } else {
        lemma_solid_concat(a, b.drop_last());
        assert((a + b).drop_last() =~= a + b.drop_last());
        assert((a + b).last() == b.last());
        assert(solid(a + b) =~= solid(a) + solid(b));
    }
}

proof fn lemma_all_solid_concat(a: Seq<Seq<char>>, b: Seq<Seq<char>>)
    ensures
        all_solid(a + b) == all_solid(a) + all_solid(b),
    decreases b.len(),
{
    if b.len() == 0 {
        assert(a + b =~= a);
        assert(all_solid(a) + all_solid(b) =~= all_solid(a));
    } else {
        lemma_all_solid_concat(a, b.drop_last());
        assert((a + b).drop_last() =~= a + b.drop_last());
        assert((a + b).last() == b.last());
        assert(all_solid(a + b) =~= all_solid(a) + all_solid(b));
    }
}

proof fn lemma_all_solid_one(s: Seq<char>)
    ensures
        all_solid(seq![s]) == solid(s),
{
    let one = seq![s];
    assert(one.drop_last() =~= Seq::<Seq<char>>::empty());
    assert(all_solid(one.drop_last()) =~= Seq::<char>::empty());
    assert(all_solid(one) =~= solid(s));
}

proof fn lemma_chunks_solid(s: Seq<char>, n: nat)
    requires
        n > 0,
    ensures
        all_solid(chunks(s, n)) == solid(s),
    decreases s.len(),
{
    if s.len() == 0 {
        assert(all_solid(chunks(s, n)) =~= solid(s));
    } else if s.len() <= n {
        lemma_all_solid_one(s);
    } else {
        let head = s.take(n as int);
        let tail = s.skip(n as int);
        lemma_chunks_solid(tail, n);
        lemma_all_solid_one(head);
        lemma_all_solid_concat(seq![head], chunks(tail, n));
        lemma_solid_concat(head, tail);
        assert(head + tail =~= s);
    }
}

proof fn lemma_filled_solid(ws: Seq<Seq<char>>, cur: Seq<char>, width: nat, cont: nat)
    requires
        0 < width,
        0 < cont,
    ensures
        all_solid(filled(ws, cur, width, cont)) == solid(cur) + all_solid(ws),
    decreases ws.len(), cur.len(),
{
    let r = filled(ws, cur, width, cont);
    if ws.len() == 0 {
        assert(all_solid(ws) =~= Seq::<char>::empty());
        if cur.len() == 0 {
            assert(all_solid(r) =~= solid(cur) + all_solid(ws));
        } else {
            lemma_all_solid_one(cur);
            assert(all_solid(r) =~= solid(cur) + all_solid(ws));
        }
    } else {
        let rest = ws.drop_first();
        lemma_all_solid_one(ws[0]);
        lemma_all_solid_concat(seq![ws[0]], rest);
        assert(seq![ws[0]] + rest =~= ws);
        if cur.len() == 0 {
            assert(solid(cur) =~= Seq::<char>::empty());
            if ws[0].len() > width {
                let n: nat = if width <= cont { width } else { cont };
                let head = ws[0].take(width as int);
                let tail = ws[0].skip(width as int);
                lemma_all_solid_one(head);
                lemma_chunks_solid(tail, n);
                lemma_all_solid_concat(seq![head], chunks(tail, n));
                lemma_solid_concat(head, tail);
                assert(head + tail =~= ws[0]);
                lemma_filled_solid(rest, Seq::empty(), cont, cont);
                lemma_all_solid_concat(
                    cut(ws[0], width, cont),
                    filled(rest, Seq::empty(), cont, cont),
                );
                assert(all_solid(r) =~= solid(cur) + all_solid(ws));
            } else {
                lemma_filled_solid(rest, ws[0], width, cont);
                assert(all_solid(r) =~= solid(cur) + all_solid(ws));
            }
        } else if cur.len() + 1 + ws[0].len() > width {
            lemma_filled_solid(ws, Seq::empty(), cont, cont);
            lemma_all_solid_one(cur);
            lemma_all_solid_concat(seq![cur], filled(ws, Seq::empty(), cont, cont));
            assert(solid(Seq::<char>::empty()) + all_solid(ws) =~= all_solid(ws));
        } else {
            let line = cur.push(' ') + ws[0];
            lemma_filled_solid(rest, line, width, cont);
            lemma_solid_concat(cur.push(' '), ws[0]);
            assert(cur.push(' ').drop_last() =~= cur);
            assert(solid(cur.push(' ')) == solid(cur));
            assert(all_solid(r) =~= solid(cur) + all_solid(ws));
        }
    }
}

proof fn lemma_split_keeps_solid(s: Seq<char>)
    ensures
        split(s, is_blank()).len() > 0,
        all_solid(split(s, is_blank())) == solid(s),
    decreases s.len(),
{
    let ps = split(s, is_blank());
    if s.len() == 0 {
        lemma_all_solid_one(Seq::<char>::empty());
    } else {
        let before = split(s.drop_last(), is_blank());
        lemma_split_keeps_solid(s.drop_last());
        if white_space(s.last()) {
            assert(ps.drop_last() =~= before);
            assert(all_solid(ps) =~= solid(s));
        } else {
            assert(ps.drop_last() =~= before.drop_last());
            assert(ps.last().drop_last() =~= before.last());
            assert(all_solid(ps) =~= solid(s));
        }
    }
}

proof fn lemma_non_empty_solid(ps: Seq<Seq<char>>)
    ensures
        all_solid(non_empty(ps)) == all_solid(ps),
    decreases ps.len(),
{
    if ps.len() > 0 {
        lemma_non_empty_solid(ps.drop_last());
        if ps.last().len() == 0 {
            assert(all_solid(ps) =~= all_solid(ps.drop_last()));
        } else {
            assert(non_empty(ps).drop_last() =~= non_empty(ps.drop_last()));
        }
    }
}

/// Wrapping keeps the text: whatever is not white space stands in the lines,
/// in the same order, and nothing else does.
pub proof fn wrapping_keeps_the_text(text: Seq<char>, first: nat, cont: nat)
    ensures
        all_solid(wrapped(text, first, cont)) == solid(text),
{
    lemma_split_keeps_solid(text);
    lemma_non_empty_solid(split(text, is_blank()));
    lemma_filled_solid(words(text), Seq::empty(), at_least_one(first), at_least_one(cont));
    assert(solid(Seq::<char>::empty()) + all_solid(words(text)) =~= solid(text));
}

/// The words of the members of `ls`, one after the other.
pub open spec fn words_of(ls: Seq<Seq<char>>) -> Seq<Seq<char>>
    decreases ls.len(),
{
    if ls.len() == 0 {
        Seq::empty()
    } else {
        words_of(ls.drop_last()) + words(ls.last())
    }
}

/// Whether no member of `ws` has more than `cont` characters, nor the first of
/// them more than `width`.
pub open spec fn all_fit(ws: Seq<Seq<char>>, width: nat, cont: nat) -> bool {
    &&& forall|i: int| 0 <= i < ws.len() ==> (#[trigger] ws[i]).len() <= cont
    &&& ws.len() > 0 ==> ws[0].len() <= width
}

proof fn lemma_split_append_word(a: Seq<char>, w: Seq<char>)
    requires
        forall|j: int| 0 <= j < w.len() ==> !white_space(#[trigger] w[j]),
    ensures
        split(a, is_blank()).len() > 0,
        split(a + w, is_blank()) == split(a, is_blank()).drop_last().push(
            split(a, is_blank()).last() + w,
        ),
    decreases w.len(),
{
    lemma_split_solid(a);
    if w.len() == 0 {
        assert(a + w =~= a);
        assert(split(a, is_blank()).last() + w =~= split(a, is_blank()).last());
        assert(split(a + w, is_blank()) =~= split(a, is_blank()).drop_last().push(
            split(a, is_blank()).last() + w,
        ));
    } else {
        lemma_split_append_word(a, w.drop_last());
        assert((a + w).drop_last() =~= a + w.drop_last());
        assert((a + w).last() == w.last());
        assert((split(a, is_blank()).last() + w.drop_last()).push(w.last()) =~= split(
            a,
            is_blank(),
        ).last() + w);
        assert(split(a + w, is_blank()) =~= split(a, is_blank()).drop_last().push(
            split(a, is_blank()).last() + w,
        ));
    }
}

/// A word, set off by a space, becomes the last word of a line.
proof fn lemma_words_append(line: Seq<char>, w: Seq<char>)
    requires
        is_word(w),
    ensures
        words(line.push(' ') + w) == words(line).push(w),
{
    let spaced = line.push(' ');
    let ps = split(line, is_blank());
    lemma_split_solid(line);
    lemma_split_append_word(spaced, w);
    assert(spaced.drop_last() =~= line);
    assert(split(spaced, is_blank()) == ps.push(Seq::<char>::empty()));
    assert(split(spaced, is_blank()).drop_last() =~= ps);
    assert(Seq::<char>::empty() + w =~= w);
    assert(split(spaced + w, is_blank()) =~= ps.push(w));
    assert(ps.push(w).drop_last() =~= ps);
}

/// A word on its own is the one word of its line.
proof fn lemma_words_single(w: Seq<char>)
    requires
        is_word(w),
    ensures
        words(w) == seq![w],
{
    let none = Seq::<char>::empty();
    lemma_split_append_word(none, w);
    assert(none + w =~= w);
    assert(split(w, is_blank()) =~= seq![w]);
    assert(seq![w].drop_last() =~= Seq::<Seq<char>>::empty());
    reveal_with_fuel(non_empty, 2);
    assert(words(w) =~= seq![w]);
}

proof fn lemma_words_of_concat(a: Seq<Seq<char>>, b: Seq<Seq<char>>)
    ensures
        words_of(a + b) == words_of(a) + words_of(b),
    decreases b.len(),
{
    if b.len() == 0 {
        assert(a + b =~= a);
        assert(words_of(a) + words_of(b) =~= words_of(a));
    } else {
        lemma_words_of_concat(a, b.drop_last());
        assert((a + b).drop_last() =~= a + b.drop_last());
        assert((a + b).last() == b.last());
        assert(words_of(a + b) =~= words_of(a) + words_of(b));
    }
}

proof fn lemma_words_of_one(s: Seq<char>)
    ensures
        words_of(seq![s]) == words(s),
{
    let one = seq![s];
    assert(one.drop_last() =~= Seq::<Seq<char>>::empty());
    assert(words_of(one.drop_last()) =~= Seq::<Seq<char>>::empty());
    assert(words_of(one) =~= words(s));
}

/// An empty text has no words.
pub(crate) proof fn no_words_in_nothing()
    ensures
        words(Seq::<char>::empty()) == Seq::<Seq<char>>::empty(),
{
    let ps = split(Seq::<char>::empty(), is_blank());
    reveal_with_fuel(non_empty, 2);
    assert(ps.drop_last() =~= Seq::<Seq<char>>::empty());
}

/// The width that line `i` is held to.
pub open spec fn width_at(i: int, first: nat, cont: nat) -> nat {
    if i == 0 {
        first
    } else {
        cont
    }
}

/// Whether line `i` of `ls` had no room for the first word of the next line.
pub open spec fn no_room(ls: Seq<Seq<char>>, i: int, first: nat, cont: nat) -> bool {
    &&& words(ls[i + 1]).len() > 0
    &&& ls[i].len() + 1 + words(ls[i + 1])[0].len() > width_at(i, first, cont)
}

/// Whether no line of `ls` had room for the first word of the next.
pub open spec fn tight(ls: Seq<Seq<char>>, first: nat, cont: nat) -> bool {
    forall|i: int| 0 <= i < ls.len() - 1 ==> #[trigger] no_room(ls, i, first, cont)
}

proof fn lemma_filled_words(ws: Seq<Seq<char>>, cur: Seq<char>, width: nat, cont: nat)
    requires
        all_words(ws),
        all_fit(ws, cont, cont),
        cur.len() == 0 ==> all_fit(ws, width, cont),
        cur.len() > 0 ==> words(cur).len() > 0,
    ensures
        words_of(filled(ws, cur, width, cont)) == words(cur) + ws,
        tight(filled(ws, cur, width, cont), width, cont),
        (words(cur) + ws).len() > 0 ==> {
            &&& filled(ws, cur, width, cont).len() > 0
            &&& words(filled(ws, cur, width, cont)[0]).len() > 0
            &&& words(filled(ws, cur, width, cont)[0])[0] == (words(cur) + ws)[0]
        },
    decreases ws.len(), cur.len(),
{
    let r = filled(ws, cur, width, cont);
    if cur.len() == 0 {
        no_words_in_nothing();
        assert(cur =~= Seq::<char>::empty());
    }
    if ws.len() == 0 {
        if cur.len() == 0 {
            assert(words_of(r) =~= words(cur) + ws);
        } else {
            lemma_words_of_one(cur);
            assert(words_of(r) =~= words(cur) + ws);
        }
    } else {
        let rest = ws.drop_first();
        assert(is_word(ws[0]));
        assert(all_words(rest)) by {
            assert forall|i: int| 0 <= i < rest.len() implies is_word(#[trigger] rest[i]) by {
                assert(rest[i] == ws[i + 1]);
            }
        }
        assert(all_fit(rest, cont, cont)) by {
            assert forall|i: int| 0 <= i < rest.len() implies (#[trigger] rest[i]).len()
                <= cont by {
                assert(rest[i] == ws[i + 1]);
            }
        }
        if cur.len() == 0 {
            assert(ws[0].len() <= width);
            lemma_words_single(ws[0]);
            lemma_filled_words(rest, ws[0], width, cont);
            assert(words(ws[0]) + rest =~= words(cur) + ws);
        } else if cur.len() + 1 + ws[0].len() > width {
            let none = Seq::<char>::empty();
            let tail = filled(ws, none, cont, cont);
            assert(all_fit(ws, cont, cont));
            no_words_in_nothing();
            lemma_filled_words(ws, none, cont, cont);
            lemma_words_of_one(cur);
            lemma_words_of_concat(seq![cur], tail);
            assert(words(none) + ws =~= ws);
            assert(words_of(r) =~= words(cur) + ws);
            assert forall|i: int| 0 <= i < r.len() - 1 implies #[trigger] no_room(
                r,
                i,
                width,
                cont,
            ) by {
                if i == 0 {
                    assert(r[1] == tail[0]);
                } else {
                    assert(no_room(tail, i - 1, cont, cont));
                    assert(r[i] == tail[i - 1]);
                    assert(r[i + 1] == tail[i]);
                }
            }
        } else {
            let line = cur.push(' ') + ws[0];
            lemma_words_append(cur, ws[0]);
            lemma_filled_words(rest, line, width, cont);
            assert(words(line) + rest =~= words(cur) + ws);
        }
    }
}

/// Where no word is longer than a line, nor the first one longer than the first
/// line, the words of the text stay whole and in order.
pub proof fn wrapping_keeps_words_whole(text: Seq<char>, first: nat, cont: nat)
    requires
        all_fit(words(text), at_least_one(first), at_least_one(cont)),
    ensures
        words_of(wrapped(text, first, cont)) == words(text),
{
    words_are_words(text);
    no_words_in_nothing();
    lemma_filled_words(words(text), Seq::empty(), at_least_one(first), at_least_one(cont));
    assert(words(Seq::<char>::empty()) + words(text) =~= words(text));
}

/// Where no word is longer than a line, nor the first one longer than the first
/// line, a line is only ended when the next word, set off by a space, would not
/// have fitted on it.
pub proof fn lines_are_filled(text: Seq<char>, first: nat, cont: nat)
    requires
        all_fit(words(text), at_least_one(first), at_least_one(cont)),
    ensures
        tight(wrapped(text, first, cont), at_least_one(first), at_least_one(cont)),
{
    words_are_words(text);
    no_words_in_nothing();
    lemma_filled_words(words(text), Seq::empty(), at_least_one(first), at_least_one(cont));
}

/// The words `ws` on one line, a space between any two.
pub open spec fn one_line(ws: Seq<Seq<char>>) -> Seq<char> {
    joined(ws, ws.len() as int, seq![' '])
}

proof fn lemma_joined_grows(ws: Seq<Seq<char>>, k: int, n: int)
    requires
        1 <= k <= n <= ws.len(),
    ensures
        joined(ws, k, seq![' ']).len() <= joined(ws, n, seq![' ']).len(),
    decreases n - k,
{
    if k < n {
        lemma_joined_grows(ws, k, n - 1);
    }
}

proof fn lemma_filled_one_line(ws: Seq<Seq<char>>, k: int, width: nat, cont: nat)
    requires
        all_words(ws),
        1 <= k <= ws.len(),
        one_line(ws).len() <= width,
    ensures
        filled(ws.skip(k), joined(ws, k, seq![' ']), width, cont) == seq![one_line(ws)],
        joined(ws, k, seq![' ']).len() > 0,
    decreases ws.len() - k,
{
    let cur = joined(ws, k, seq![' ']);
    assert(is_word(ws[0]));
    lemma_joined_grows(ws, 1, k);
    if k < ws.len() {
        let next = ws.skip(k);
        assert(next[0] == ws[k]);
        assert(next.drop_first() =~= ws.skip(k + 1));
        lemma_joined_grows(ws, k + 1, ws.len() as int);
        assert(joined(ws, k + 1, seq![' ']) =~= cur.push(' ') + ws[k]);
        lemma_filled_one_line(ws, k + 1, width, cont);
    }
}

/// A text whose words fit on the first line is set on that one line, a space
/// between any two words; a text without words gives no line.
pub proof fn short_text_stays_on_one_line(text: Seq<char>, first: nat, cont: nat)
    requires
        one_line(words(text)).len() <= at_least_one(first),
    ensures
        wrapped(text, first, cont) == (if words(text).len() == 0 {
            Seq::empty()
        } else {
            seq![one_line(words(text))]
        }),
{
    let ws = words(text);
    words_are_words(text);
    if ws.len() > 0 {
        lemma_filled_one_line(ws, 1, at_least_one(first), at_least_one(cont));
        lemma_joined_grows(ws, 1, ws.len() as int);
        assert(ws.skip(1) =~= ws.drop_first());
    }
}

proof fn lemma_trimmed_end(s: Seq<char>)
    ensures
        trimmed_end(s).len() > 0 ==> !white_space(trimmed_end(s).last()),
        solid(trimmed_end(s)) == solid(s),
    decreases s.len(),
{
    if s.len() > 0 && white_space(s.last()) {
        lemma_trimmed_end(s.drop_last());
    }
}

proof fn lemma_trimmed_start(s: Seq<char>)
    ensures
        solid(trimmed_start(s)) == solid(s),
    decreases s.len(),
{
    if s.len() > 0 && white_space(s[0]) {
        let head = seq![s[0]];
        lemma_trimmed_start(s.drop_first());
        lemma_solid_concat(head, s.drop_first());
        assert(head + s.drop_first() =~= s);
        assert(head.drop_last() =~= Seq::<char>::empty());
        reveal_with_fuel(solid, 2);
        assert(solid(head) =~= Seq::<char>::empty());
        assert(solid(head) + solid(s.drop_first()) =~= solid(s.drop_first()));
    }
}

/// A text without white space around it keeps what else it holds, and if
/// anything is left of it, wrapping it gives a line.
proof fn lemma_trimmed(s: Seq<char>, first: nat, cont: nat)
    ensures
        solid(trimmed(s)) == solid(s),
        trimmed(s).len() > 0 ==> wrapped(trimmed(s), first, cont).len() > 0,
        trimmed(s).len() == 0 ==> solid(s).len() == 0,
{
    let t = trimmed(s);
    lemma_trimmed_start(s);
    lemma_trimmed_end(trimmed_start(s));
    if t.len() > 0 {
        wrapping_keeps_the_text(t, first, cont);
        assert(solid(t).len() > 0);
    }
}

proof fn lemma_each(ls: Seq<Seq<char>>, n: int, first: nat, cont: nat)
    requires
        0 <= n <= ls.len(),
    ensures
        ({
            let ps = paragraphs(ls, n);
            let r = wrapped_each(ps, ps.len() as int, first, cont);
            &&& fit(r, at_least_one(first), at_least_one(cont))
            &&& ps.len() > 0 ==> r.len() > 0
            &&& all_solid(r) == all_solid(ls.take(n))
        }),
    decreases n,
{
    let ps = paragraphs(ls, n);
    let r = wrapped_each(ps, ps.len() as int, first, cont);
    if n <= 0 {
        assert(ls.take(n) =~= Seq::<Seq<char>>::empty());
    } else {
        let before = paragraphs(ls, n - 1);
        let k = before.len() as int;
        let done = wrapped_each(before, k, first, cont);
        lemma_each(ls, n - 1, first, cont);
        assert(ls.take(n).drop_last() =~= ls.take(n - 1));
        assert(ls.take(n).last() == ls[n - 1]);
        let budget = if k == 0 {
            first
        } else {
            cont
        };
        lemma_trimmed(ls[n - 1], budget, cont);
        if blank(ls[n - 1]) {
            assert(solid(ls[n - 1]) =~= Seq::<char>::empty());
            assert(all_solid(ls.take(n)) =~= all_solid(ls.take(n - 1)));
        } else {
            let p = trimmed(ls[n - 1]);
            let added = wrapped(p, budget, cont);
            lemma_wrapped_each_prefix(before, p, k, first, cont);
            assert(r == done + added);
            wrapped_lines_fit(p, budget, cont);
            wrapping_keeps_the_text(p, budget, cont);
            lemma_all_solid_concat(done, added);
            if k == 0 {
                assert(done =~= Seq::<Seq<char>>::empty());
                assert(r =~= added);
            } else {
                assert forall|i: int| 0 <= i < r.len() implies 0 < (#[trigger] r[i]).len() <= (
                if i == 0 {
                    at_least_one(first)
                } else {
                    at_least_one(cont)
                }) by {
                    if i < done.len() {
                        assert(r[i] == done[i]);
                    } else {
                        assert(r[i] == added[i - done.len()]);
                    }
                }
            }
        }
    }
}

proof fn lemma_line_split_solid(s: Seq<char>)
    ensures
        split(s, is_line_feed()).len() > 0,
        all_solid(split(s, is_line_feed())) == solid(s),
    decreases s.len(),
{
    let ps = split(s, is_line_feed());
    if s.len() == 0 {
        lemma_all_solid_one(Seq::<char>::empty());
    } else {
        let before = split(s.drop_last(), is_line_feed());
        lemma_line_split_solid(s.drop_last());
        if s.last() == '\n' {
            assert(ps.drop_last() =~= before);
            assert(all_solid(ps) =~= solid(s));
        } else {
            assert(ps.drop_last() =~= before.drop_last());
            assert(ps.last().drop_last() =~= before.last());
            assert(all_solid(ps) =~= solid(s));
        }
    }
}

proof fn lemma_without_cr_solid(ps: Seq<Seq<char>>)
    ensures
        all_solid(ps.map_values(|p: Seq<char>| without_cr(p))) == all_solid(ps),
    decreases ps.len(),
{
    let ended = ps.map_values(|p: Seq<char>| without_cr(p));
    if ps.len() == 0 {
        assert(ended =~= ps);
    } else {
        lemma_without_cr_solid(ps.drop_last());
        assert(ended.drop_last() =~= ps.drop_last().map_values(|p: Seq<char>| without_cr(p)));
        assert(solid(without_cr(ps.last())) == solid(ps.last()));
    }
}

/// The lines of a text hold whatever is not white space in it, in the same
/// order.
pub proof fn lines_keep_the_text(s: Seq<char>)
    ensures
        all_solid(lines(s)) == solid(s),
{
    let ps = split(s, is_line_feed());
    let ended = ps.drop_last().map_values(|p: Seq<char>| without_cr(p));
    lemma_line_split_solid(s);
    lemma_without_cr_solid(ps.drop_last());
    if ps.last().len() == 0 {
        assert(solid(ps.last()) =~= Seq::<char>::empty());
        assert(all_solid(ps) =~= all_solid(ended));
    } else {
        assert(ended.push(ps.last()).drop_last() =~= ended);
    }
}

/// A finding's text, wrapped, keeps to its widths and keeps the text.
pub proof fn wrapped_bodies_fit_and_keep_the_text(text: Seq<char>, first: nat, cont: nat)
    ensures
        fit(wrapped_body(text, first, cont), at_least_one(first), at_least_one(cont)),
        all_solid(wrapped_body(text, first, cont)) == solid(text),
{
    let ls = lines(text);
    lemma_each(ls, ls.len() as int, first, cont);
    assert(ls.take(ls.len() as int) =~= ls);
    lines_keep_the_text(text);
}

/// A width is taken as it is, but zero for one.
pub proof fn widths_are_taken_as_they_are(width: nat)
    ensures
        at_least_one(width) >= 1,
        width >= 1 ==> at_least_one(width) == width,
        width == 0 ==> at_least_one(width) == 1,
{
}

/// Whether `line` is made of its words alone, with one space between any two.
pub open spec fn evenly_spaced(line: Seq<char>) -> bool {
    line == one_line(words(line))
}

/// Whether every member of `ls` is evenly spaced.
pub open spec fn all_evenly_spaced(ls: Seq<Seq<char>>) -> bool {
    forall|i: int| 0 <= i < ls.len() ==> evenly_spaced(#[trigger] ls[i])
}

proof fn lemma_word_evenly_spaced(w: Seq<char>)
    requires
        is_word(w),
    ensures
        evenly_spaced(w),
        words(w).len() == 1,
{
    lemma_words_single(w);
}

proof fn lemma_append_evenly_spaced(line: Seq<char>, w: Seq<char>)
    requires
        is_word(w),
        evenly_spaced(line),
        words(line).len() > 0,
    ensures
        evenly_spaced(line.push(' ') + w),
        words(line.push(' ') + w).len() > 0,
{
    let ws = words(line);
    lemma_words_append(line, w);
    lemma_joined_prefix(ws, seq![w], ws.len() as int, seq![' ']);
    assert(ws + seq![w] =~= ws.push(w));
    assert(line.push(' ') + w =~= line + seq![' '] + w);
}

proof fn lemma_part_of_word(w: Seq<char>, from: int, to: int)
    requires
        is_word(w),
        0 <= from < to <= w.len(),
    ensures
        is_word(w.subrange(from, to)),
{
}

proof fn lemma_chunks_are_words(w: Seq<char>, n: nat)
    requires
        is_word(w),
        n > 0,
    ensures
        all_words(chunks(w, n)),
    decreases w.len(),
{
    if w.len() > n {
        let rest = w.skip(n as int);
        assert(rest =~= w.subrange(n as int, w.len() as int));
        assert(w.take(n as int) =~= w.subrange(0, n as int));
        lemma_part_of_word(w, n as int, w.len() as int);
        lemma_part_of_word(w, 0, n as int);
        lemma_chunks_are_words(rest, n);
        assert forall|i: int| 0 <= i < chunks(w, n).len() implies is_word(
            #[trigger] chunks(w, n)[i],
        ) by {
            if i > 0 {
                assert(chunks(w, n)[i] == chunks(rest, n)[i - 1]);
            }
        }
    }
}

proof fn lemma_filled_evenly_spaced(ws: Seq<Seq<char>>, cur: Seq<char>, width: nat, cont: nat)
    requires
        all_words(ws),
        0 < width,
        0 < cont,
        cur.len() > 0 ==> evenly_spaced(cur) && words(cur).len() > 0,
    ensures
        all_evenly_spaced(filled(ws, cur, width, cont)),
    decreases ws.len(), cur.len(),
{
    let r = filled(ws, cur, width, cont);
    if ws.len() > 0 {
        let w = ws[0];
        let rest = ws.drop_first();
        assert(is_word(w));
        assert(all_words(rest)) by {
            assert forall|i: int| 0 <= i < rest.len() implies is_word(#[trigger] rest[i]) by {
                assert(rest[i] == ws[i + 1]);
            }
        }
        if cur.len() == 0 {
            if w.len() > width {
                let n: nat = if width <= cont { width } else { cont };
                let head = cut(w, width, cont);
                let tail = filled(rest, Seq::empty(), cont, cont);
                let left = w.skip(width as int);
                assert(w.take(width as int) =~= w.subrange(0, width as int));
                assert(left =~= w.subrange(width as int, w.len() as int));
                lemma_part_of_word(w, 0, width as int);
                lemma_part_of_word(w, width as int, w.len() as int);
                lemma_chunks_are_words(left, n);
                lemma_filled_evenly_spaced(rest, Seq::empty(), cont, cont);
                assert forall|i: int| 0 <= i < r.len() implies evenly_spaced(#[trigger] r[i]) by {
                    if i == 0 {
                        lemma_word_evenly_spaced(w.take(width as int));
                    } else if i < head.len() {
                        assert(r[i] == chunks(left, n)[i - 1]);
                        lemma_word_evenly_spaced(r[i]);
                    } else {
                        assert(r[i] == tail[i - head.len()]);
                    }
                }
            } else {
                lemma_word_evenly_spaced(w);
                lemma_filled_evenly_spaced(rest, w, width, cont);
            }
        } else if cur.len() + 1 + w.len() > width {
            let tail = filled(ws, Seq::empty(), cont, cont);
            lemma_filled_evenly_spaced(ws, Seq::empty(), cont, cont);
            assert forall|i: int| 0 <= i < r.len() implies evenly_spaced(#[trigger] r[i]) by {
                if i > 0 {
                    assert(r[i] == tail[i - 1]);
                }
            }
        } else {
            lemma_append_evenly_spaced(cur, w);
            lemma_filled_evenly_spaced(rest, cur.push(' ') + w, width, cont);
        }
    } else if cur.len() > 0 {
        assert(r == seq![cur]);
    }
}

/// Every line is made of words alone, with one space between any two: no white
/// space is left at its ends, and none other within.
pub proof fn lines_are_evenly_spaced(text: Seq<char>, first: nat, cont: nat)
    ensures
        all_evenly_spaced(wrapped(text, first, cont)),
{
    words_are_words(text);
    lemma_filled_evenly_spaced(words(text), Seq::empty(), at_least_one(first), at_least_one(cont));
}

/// A word that is cut is filled into a first line of `width` characters and
/// further ones that neither exceed `width` nor `cont`, each but the last as
/// full as that allows; put together, the pieces are the word.
pub proof fn cut_words_fill_their_lines(w: Seq<char>, width: nat, cont: nat)
    requires
        0 < width < w.len(),
        0 < cont,
    ensures
        cut(w, width, cont).flatten() == w,
        cut(w, width, cont).len() > 1,
        cut(w, width, cont)[0].len() == width,
        forall|i: int|
            0 < i < cut(w, width, cont).len() - 1 ==> (#[trigger] cut(w, width, cont)[i]).len() == (
            if width <= cont {
                width
            } else {
                cont
            }),
        0 < cut(w, width, cont).last().len() <= width,
        cut(w, width, cont).last().len() <= cont,
{
    let n: nat = if width <= cont { width } else { cont };
    let rest = w.skip(width as int);
    let r = cut(w, width, cont);
    let tail = chunks(rest, n);
    chunks_keep_the_text(rest, n);
    assert(r.drop_first() =~= tail);
    assert(w.take(width as int) + rest =~= w);
    assert forall|i: int| 0 < i < r.len() - 1 implies (#[trigger] r[i]).len() == n by {
        assert(r[i] == tail[i - 1]);
    }
    assert(tail.len() > 0);
    assert(r.last() == tail[tail.len() - 1]);
}

proof fn lemma_filled_around_long_word(
    a: Seq<Seq<char>>,
    w: Seq<char>,
    b: Seq<Seq<char>>,
    cur: Seq<char>,
    width: nat,
    cont: nat,
)
    requires
        all_words(a),
        0 < width < w.len(),
        0 < cont < w.len(),
        a.len() > 0 || cur.len() > 0 || width == cont,
    ensures
        filled(a + seq![w] + b, cur, width, cont) == filled(a, cur, width, cont) + chunks(w, cont)
            + filled(b, Seq::empty(), cont, cont),
    decreases a.len(), cur.len(),
{
    let ws = a + seq![w] + b;
    let none = Seq::<char>::empty();
    let end = filled(b, none, cont, cont);
    let left = filled(ws, cur, width, cont);
    let right = filled(a, cur, width, cont) + chunks(w, cont) + end;
    assert(cut(w, cont, cont) =~= chunks(w, cont));
    if a.len() == 0 {
        assert(ws[0] == w);
        assert(ws.drop_first() =~= b);
        if cur.len() == 0 {
            assert(left =~= right);
        } else {
            assert(filled(ws, none, cont, cont) == cut(w, cont, cont) + end);
            assert(left =~= right);
        }
    } else {
        let rest = a.drop_first();
        assert(is_word(a[0]));
        assert(all_words(rest)) by {
            assert forall|i: int| 0 <= i < rest.len() implies is_word(#[trigger] rest[i]) by {
                assert(rest[i] == a[i + 1]);
            }
        }
        assert(ws[0] == a[0]);
        assert(ws.drop_first() =~= rest + seq![w] + b);
        if cur.len() == 0 {
            if a[0].len() > width {
                lemma_filled_around_long_word(rest, w, b, none, cont, cont);
                assert(left =~= right);
            } else {
                lemma_filled_around_long_word(rest, w, b, a[0], width, cont);
                assert(left =~= right);
            }
        } else if cur.len() + 1 + a[0].len() > width {
            lemma_filled_around_long_word(a, w, b, none, cont, cont);
            assert(left =~= right);
        } else {
            lemma_filled_around_long_word(rest, w, b, cur.push(' ') + a[0], width, cont);
            assert(left =~= right);
        }
    }
}

/// A word that no line can hold begins a line and ends one: what precedes it is
/// wrapped as if nothing followed, the word is cut, and what follows is wrapped
/// as a text of its own. Where nothing precedes it, it is enough that the first
/// line cannot hold it.
pub proof fn long_words_stand_alone(
    a: Seq<char>,
    w: Seq<char>,
    b: Seq<char>,
    first: nat,
    cont: nat,
)
    requires
        is_word(w),
        0 < first < w.len(),
        0 < cont,
        words(a).len() > 0 ==> cont < w.len(),
    ensures
        words(a).len() > 0 ==> wrapped((a.push(' ') + w).push(' ') + b, first, cont) == wrapped(
            a,
            first,
            cont,
        ) + chunks(w, cont) + wrapped(b, cont, cont),
        words(a).len() == 0 ==> wrapped((a.push(' ') + w).push(' ') + b, first, cont) == cut(
            w,
            first,
            cont,
        ) + wrapped(b, cont, cont),
{
    let text = (a.push(' ') + w).push(' ') + b;
    let none = Seq::<char>::empty();
    white_space_parts_words(a.push(' ') + w, ' ', b);
    white_space_parts_words(a, ' ', w);
    lemma_words_single(w);
    assert(words(text) =~= words(a) + seq![w] + words(b));
    words_are_words(a);
    if words(a).len() > 0 {
        lemma_filled_around_long_word(words(a), w, words(b), none, first, cont);
    } else {
        assert(words(text)[0] == w);
        assert(words(text).drop_first() =~= words(b));
    }
}

proof fn lemma_paragraphs_first(x: Seq<char>, ls: Seq<Seq<char>>, n: int)
    requires
        0 <= n <= ls.len(),
    ensures
        paragraphs(seq![x] + ls, n + 1) == (if blank(x) {
            Seq::empty()
        } else {
            seq![trimmed(x)]
        }) + paragraphs(ls, n),
    decreases n,
{
    let all = seq![x] + ls;
    let head = if blank(x) {
        Seq::empty()
    } else {
        seq![trimmed(x)]
    };
    reveal_with_fuel(paragraphs, 2);
    if n == 0 {
        assert(all[0] == x);
        assert(paragraphs(all, 1) =~= head + paragraphs(ls, 0));
    } else {
        lemma_paragraphs_first(x, ls, n - 1);
        assert(all[n] == ls[n - 1]);
        assert(paragraphs(all, n + 1) =~= head + paragraphs(ls, n));
    }
}

proof fn lemma_wrapped_each_first(p: Seq<char>, ps: Seq<Seq<char>>, n: int, first: nat, cont: nat)
    requires
        0 <= n <= ps.len(),
    ensures
        wrapped_each(seq![p] + ps, n + 1, first, cont) == wrapped(p, first, cont) + wrapped_each(
            ps,
            n,
            cont,
            cont,
        ),
    decreases n,
{
    let all = seq![p] + ps;
    reveal_with_fuel(wrapped_each, 2);
    if n == 0 {
        assert(all[0] == p);
        assert(wrapped_each(all, 1, first, cont) =~= wrapped(p, first, cont) + wrapped_each(
            ps,
            0,
            cont,
            cont,
        ));
    } else {
        lemma_wrapped_each_first(p, ps, n - 1, first, cont);
        assert(all[n] == ps[n - 1]);
        assert(wrapped_each(all, n + 1, first, cont) =~= wrapped(p, first, cont) + wrapped_each(
            ps,
            n,
            cont,
            cont,
        ));
    }
}

pub(crate) proof fn lemma_blank_has_no_words(x: Seq<char>)
    ensures
        blank(x) == (words(x).len() == 0),
        wrapped(trimmed(x), 1, 1) == wrapped(x, 1, 1),
{
    trimming_keeps_the_words(x);
    lemma_trimmed(x, 1, 1);
    no_words_in_nothing();
    if blank(x) {
        assert(trimmed(x) =~= Seq::<char>::empty());
    }
}

proof fn lemma_body_first_line(x: Seq<char>, b: Seq<char>, first: nat, cont: nat)
    ensures
        ({
            let ls = seq![x] + lines(b);
            let ps = paragraphs(ls, ls.len() as int);
            wrapped_each(ps, ps.len() as int, first, cont) == (if words(x).len() == 0 {
                wrapped_body(b, first, cont)
            } else {
                wrapped(x, first, cont) + wrapped_body(b, cont, cont)
            })
        }),
{
    let ls = seq![x] + lines(b);
    let ps = paragraphs(ls, ls.len() as int);
    let qs = paragraphs(lines(b), lines(b).len() as int);
    lemma_paragraphs_first(x, lines(b), lines(b).len() as int);
    lemma_blank_has_no_words(x);
    trimming_keeps_the_words(x);
    if blank(x) {
        assert(ps =~= qs);
    } else {
        assert(ps == seq![trimmed(x)] + qs);
        lemma_wrapped_each_first(trimmed(x), qs, qs.len() as int, first, cont);
    }
}

/// The text of a finding is wrapped line by line: a line without words leaves
/// nothing behind, any other is wrapped on its own. The first line that has
/// words starts with `first` characters, every later one with `cont`.
pub proof fn bodies_are_wrapped_line_by_line(x: Seq<char>, b: Seq<char>, first: nat, cont: nat)
    requires
        forall|i: int| 0 <= i < x.len() ==> #[trigger] x[i] != '\n',
    ensures
        wrapped_body(x, first, cont) == wrapped(x, first, cont),
        wrapped_body(x.push('\n') + b, first, cont) == (if words(x).len() == 0 {
            wrapped_body(b, first, cont)
        } else {
            wrapped(x, first, cont) + wrapped_body(b, cont, cont)
        }),
{
    let none = Seq::<char>::empty();
    text_without_line_feed_is_one_line(x);
    text_without_line_feed_is_one_line(none);
    line_feeds_part_lines(x, b);
    lemma_body_first_line(x, none, first, cont);
    assert(wrapped_body(none, cont, cont) =~= Seq::<Seq<char>>::empty());
    assert(wrapped_body(none, first, cont) =~= Seq::<Seq<char>>::empty());
    if x.len() == 0 {
        assert(x =~= none);
        no_words_in_nothing();
        assert(wrapped_body(x, first, cont) =~= wrapped(x, first, cont));
        lemma_body_first_line(x, b, first, cont);
    } else {
        assert(seq![x] + lines(none) =~= lines(x));
        if words(x).len() == 0 {
            assert(wrapped(x, first, cont) =~= Seq::<Seq<char>>::empty());
        }
        assert(wrapped(x, first, cont) + wrapped_body(none, cont, cont) =~= wrapped(
            x,
            first,
            cont,
        ));
        if x.last() == '\r' {
            let y = x.drop_last();
            lemma_body_first_line(y, b, first, cont);
            lemma_trailing_white_space(y, seq!['\r']);
            assert(y + seq!['\r'] =~= x);
        } else {
            lemma_body_first_line(x, b, first, cont);
        }
    }
}

proof fn lemma_filled_first_line(
    ws: Seq<Seq<char>>,
    k: int,
    m: int,
    width: nat,
    cont: nat,
)
    requires
        all_words(ws),
        1 <= k <= m < ws.len(),
        joined(ws, m, seq![' ']).len() <= width,
        joined(ws, m, seq![' ']).len() + 1 + ws[m].len() > width,
    ensures
        filled(ws.skip(k), joined(ws, k, seq![' ']), width, cont) == seq![joined(ws, m, seq![' '])]
            + filled(ws.skip(m), Seq::empty(), cont, cont),
        joined(ws, k, seq![' ']).len() > 0,
    decreases m - k,
{
    let cur = joined(ws, k, seq![' ']);
    let next = ws.skip(k);
    assert(is_word(ws[0]));
    lemma_joined_grows(ws, 1, k);
    assert(next[0] == ws[k]);
    if k < m {
        assert(next.drop_first() =~= ws.skip(k + 1));
        lemma_joined_grows(ws, k + 1, m);
        assert(joined(ws, k + 1, seq![' ']) =~= cur.push(' ') + ws[k]);
        lemma_filled_first_line(ws, k + 1, m, width, cont);
    }
}

/// The first line takes the words that fit on it, and the others are wrapped
/// like a text of their own whose first line is no other than the further ones.
pub proof fn first_lines_take_what_fits(a: Seq<char>, b: Seq<char>, first: nat, cont: nat)
    requires
        words(a).len() > 0,
        words(b).len() > 0,
        one_line(words(a)).len() <= at_least_one(first),
        one_line(words(a)).len() + 1 + words(b)[0].len() > at_least_one(first),
    ensures
        wrapped(a.push(' ') + b, first, cont) == seq![one_line(words(a))] + wrapped(b, cont, cont),
{
    let text = a.push(' ') + b;
    let ws = words(text);
    let m = words(a).len() as int;
    white_space_parts_words(a, ' ', b);
    words_are_words(text);
    lemma_joined_prefix(words(a), words(b), m, seq![' ']);
    assert(ws.skip(m) =~= words(b));
    assert(ws[m] == words(b)[0]);
    lemma_joined_grows(ws, 1, m);
    lemma_filled_first_line(ws, 1, m, at_least_one(first), at_least_one(cont));
    assert(is_word(ws[0]));
    assert(ws.skip(1) =~= ws.drop_first());
}

} // verus!
