//! What determines words, lines, trimming, padding, numerals and colours.

use crate::style::{closing, opening, painted, painted_twice, Style};
use crate::text::{
    decimal, is_blank, is_line_feed, joined, lines, non_empty, padded_end, padded_start, repeated,
    split, trimmed, trimmed_end, trimmed_start, white_space, words,
};
use vstd::prelude::*;

verus! {

proof fn lemma_split_some(s: Seq<char>, sep: spec_fn(char) -> bool)
    ensures
        split(s, sep).len() > 0,
    decreases s.len(),
{
    if s.len() > 0 {
        lemma_split_some(s.drop_last(), sep);
    }
}

proof fn lemma_split_at(a: Seq<char>, c: char, b: Seq<char>, sep: spec_fn(char) -> bool)
    requires
        sep(c),
    ensures
        split(a.push(c) + b, sep) == split(a, sep) + split(b, sep),
    decreases b.len(),
{
    let whole = a.push(c) + b;
    lemma_split_some(a, sep);
    lemma_split_some(b, sep);
    if b.len() == 0 {
        assert(whole =~= a.push(c));
        assert(a.push(c).drop_last() =~= a);
        assert(split(whole, sep) =~= split(a, sep) + split(b, sep));
    } else {
        lemma_split_at(a, c, b.drop_last(), sep);
        lemma_split_some(b.drop_last(), sep);
        assert(whole.drop_last() =~= a.push(c) + b.drop_last());
        assert(whole.last() == b.last());
        assert(split(whole, sep) =~= split(a, sep) + split(b, sep));
    }
}

proof fn lemma_split_whole(w: Seq<char>, sep: spec_fn(char) -> bool)
    requires
        forall|i: int| 0 <= i < w.len() ==> !sep(#[trigger] w[i]),
    ensures
        split(w, sep) == seq![w],
    decreases w.len(),
{
    if w.len() == 0 {
        assert(w =~= Seq::<char>::empty());
    } else {
        lemma_split_whole(w.drop_last(), sep);
        assert(w.drop_last().push(w.last()) =~= w);
        assert(split(w, sep) =~= seq![w]);
    }
}

proof fn lemma_non_empty_concat(a: Seq<Seq<char>>, b: Seq<Seq<char>>)
    ensures
        non_empty(a + b) == non_empty(a) + non_empty(b),
    decreases b.len(),
{
    if b.len() == 0 {
        assert(a + b =~= a);
        assert(non_empty(a) + non_empty(b) =~= non_empty(a));
    } else {
        lemma_non_empty_concat(a, b.drop_last());
        assert((a + b).drop_last() =~= a + b.drop_last());
        assert(non_empty(a + b) =~= non_empty(a) + non_empty(b));
    }
}

/// A white space character anywhere parts a text: the words of the whole are
/// those in front of it and those behind it.
pub proof fn white_space_parts_words(a: Seq<char>, c: char, b: Seq<char>)
    requires
        white_space(c),
    ensures
        words(a.push(c) + b) == words(a) + words(b),
{
    lemma_split_at(a, c, b, is_blank());
    lemma_non_empty_concat(split(a, is_blank()), split(b, is_blank()));
}

/// A text without white space is one word, or none if it is empty.
pub proof fn solid_text_is_one_word(w: Seq<char>)
    requires
        forall|i: int| 0 <= i < w.len() ==> !white_space(#[trigger] w[i]),
    ensures
        words(w) == (if w.len() == 0 {
            Seq::empty()
        } else {
            seq![w]
        }),
{
    lemma_split_whole(w, is_blank());
    reveal_with_fuel(non_empty, 2);
    assert(seq![w].drop_last() =~= Seq::<Seq<char>>::empty());
    assert(words(w) =~= (if w.len() == 0 {
        Seq::empty()
    } else {
        seq![w]
    }));
}

proof fn lemma_leading_white_space(pre: Seq<char>, t: Seq<char>)
    requires
        forall|i: int| 0 <= i < pre.len() ==> white_space(#[trigger] pre[i]),
    ensures
        words(pre + t) == words(t),
    decreases pre.len(),
{
    if pre.len() == 0 {
        assert(pre + t =~= t);
    } else {
        let none = Seq::<char>::empty();
        assert(white_space(pre[0]));
        lemma_leading_white_space(pre.drop_first(), t);
        white_space_parts_words(none, pre[0], pre.drop_first() + t);
        solid_text_is_one_word(none);
        assert(none.push(pre[0]) + (pre.drop_first() + t) =~= pre + t);
        assert(words(none) + words(pre.drop_first() + t) =~= words(t));
    }
}

pub(crate) proof fn lemma_trailing_white_space(t: Seq<char>, post: Seq<char>)
    requires
        forall|i: int| 0 <= i < post.len() ==> white_space(#[trigger] post[i]),
    ensures
        words(t + post) == words(t),
    decreases post.len(),
{
    if post.len() == 0 {
        assert(t + post =~= t);
    } else {
        let none = Seq::<char>::empty();
        let rest = post.drop_last();
        assert(white_space(post.last()));
        lemma_trailing_white_space(t, rest);
        white_space_parts_words(t + rest, post.last(), none);
        solid_text_is_one_word(none);
        assert((t + rest).push(post.last()) + none =~= t + post);
        assert(words(t + rest) + words(none) =~= words(t));
    }
}

/// A line feed anywhere parts a text: the lines of the whole are those that end
/// with it and those behind it.
pub proof fn line_feeds_part_lines(a: Seq<char>, b: Seq<char>)
    ensures
        lines(a.push('\n') + b) == lines(a.push('\n')) + lines(b),
{
    let none = Seq::<char>::empty();
    lemma_split_some(a, is_line_feed());
    lemma_split_some(b, is_line_feed());
    lemma_split_at(a, '\n', b, is_line_feed());
    lemma_split_at(a, '\n', none, is_line_feed());
    lemma_split_whole(none, is_line_feed());
    assert(a.push('\n') + none =~= a.push('\n'));
    assert(split(a.push('\n'), is_line_feed()).drop_last() =~= split(a, is_line_feed()));
    let ps = split(a, is_line_feed());
    let qs = split(b, is_line_feed());
    assert((ps + qs).last() == qs.last());
    assert((ps + qs).drop_last() =~= ps + qs.drop_last());
    assert(lines(a.push('\n') + b) =~= lines(a.push('\n')) + lines(b));
}

/// A text without a line feed is one line, or none if it is empty. With a line
/// feed at its end it is one line in any case, less one carriage return in front
/// of the line feed.
pub proof fn text_without_line_feed_is_one_line(x: Seq<char>)
    requires
        forall|i: int| 0 <= i < x.len() ==> #[trigger] x[i] != '\n',
    ensures
        lines(x) == (if x.len() == 0 {
            Seq::empty()
        } else {
            seq![x]
        }),
        x.len() > 0 && x.last() == '\r' ==> lines(x.push('\n')) == seq![x.drop_last()],
        x.len() == 0 || x.last() != '\r' ==> lines(x.push('\n')) == seq![x],
{
    let none = Seq::<char>::empty();
    lemma_split_whole(x, is_line_feed());
    lemma_split_whole(none, is_line_feed());
    lemma_split_at(x, '\n', none, is_line_feed());
    assert(x.push('\n') + none =~= x.push('\n'));
    let ps = split(x.push('\n'), is_line_feed());
    assert(ps =~= seq![x, none]);
    assert(ps.drop_last() =~= seq![x]);
    assert(lines(x) =~= (if x.len() == 0 {
        Seq::empty()
    } else {
        seq![x]
    }));
    if x.len() > 0 && x.last() == '\r' {
        assert(lines(x.push('\n')) =~= seq![x.drop_last()]);
    } else {
        assert(lines(x.push('\n')) =~= seq![x]);
    }
}

/// Trimming takes the white space off both ends, all of it and nothing else:
/// what is left lies between `r.0` and `r.1`.
pub proof fn trimming_takes_off_white_space(s: Seq<char>) -> (r: (int, int))
    ensures
        0 <= r.0 <= r.1 <= s.len(),
        trimmed(s) == s.subrange(r.0, r.1),
        forall|i: int| 0 <= i < r.0 ==> white_space(#[trigger] s[i]),
        forall|i: int| r.1 <= i < s.len() ==> white_space(#[trigger] s[i]),
        r.0 < r.1 ==> !white_space(s[r.0]) && !white_space(s[r.1 - 1]),
{
    let from = lemma_trimmed_start_at(s);
    let t = trimmed_start(s);
    let to = trimming_the_end_takes_off_white_space(t);
    assert(t.take(to) =~= s.subrange(from, from + to));
    assert forall|i: int| from + to <= i < s.len() implies white_space(#[trigger] s[i]) by {
        assert(t[i - from] == s[i]);
    }
    if to > 0 {
        assert(t[0] == s[from]);
        assert(t[to - 1] == s[from + to - 1]);
    }
    (from, from + to)
}

proof fn lemma_trimmed_start_at(s: Seq<char>) -> (from: int)
    ensures
        0 <= from <= s.len(),
        trimmed_start(s) == s.skip(from),
        forall|i: int| 0 <= i < from ==> white_space(#[trigger] s[i]),
        from < s.len() ==> !white_space(s[from]),
    decreases s.len(),
{
    if s.len() > 0 && white_space(s[0]) {
        let rest = s.drop_first();
        let from = lemma_trimmed_start_at(rest);
        assert(rest.skip(from) =~= s.skip(from + 1));
        assert forall|i: int| 0 <= i < from + 1 implies white_space(#[trigger] s[i]) by {
            if i > 0 {
                assert(rest[i - 1] == s[i]);
            }
        }
        from + 1
    } else {
        assert(s.skip(0) =~= s);
        0
    }
}

/// Trimming the end takes the white space off it, all of it and nothing else:
/// what is left is the first `to` characters.
pub proof fn trimming_the_end_takes_off_white_space(s: Seq<char>) -> (to: int)
    ensures
        0 <= to <= s.len(),
        trimmed_end(s) == s.take(to),
        forall|i: int| to <= i < s.len() ==> white_space(#[trigger] s[i]),
        to > 0 ==> !white_space(s[to - 1]),
    decreases s.len(),
{
    if s.len() > 0 && white_space(s.last()) {
        let rest = s.drop_last();
        let to = trimming_the_end_takes_off_white_space(rest);
        assert(rest.take(to) =~= s.take(to));
        assert forall|i: int| to <= i < s.len() implies white_space(#[trigger] s[i]) by {
            if i < s.len() - 1 {
                assert(rest[i] == s[i]);
            }
        }
        to
    } else {
        assert(s.take(s.len() as int) =~= s);
        s.len() as int
    }
}

/// Trimming keeps the words of a text, at both ends and at the end alone.
pub proof fn trimming_keeps_the_words(s: Seq<char>)
    ensures
        words(trimmed(s)) == words(s),
        words(trimmed_end(s)) == words(s),
{
    let (from, to) = trimming_takes_off_white_space(s);
    let t = s.subrange(from, to);
    lemma_leading_white_space(s.take(from), t);
    lemma_trailing_white_space(s.take(from) + t, s.skip(to));
    assert(s.take(from) + t + s.skip(to) =~= s);
    let end = trimming_the_end_takes_off_white_space(s);
    lemma_trailing_white_space(s.take(end), s.skip(end));
    assert(s.take(end) + s.skip(end) =~= s);
}

/// The number that a row of decimal digits stands for.
pub open spec fn number_of(digits: Seq<char>) -> int
    decreases digits.len(),
{
    if digits.len() == 0 {
        0
    } else {
        10 * number_of(digits.drop_last()) + (digits.last() as int - '0' as int)
    }
}

/// A numeral consists of digits, does not start with a zero unless it is that
/// digit alone, and stands for its number.
pub proof fn numerals_stand_for_their_number(n: nat)
    ensures
        number_of(decimal(n)) == n,
        decimal(n).len() > 0,
        forall|i: int| 0 <= i < decimal(n).len() ==> '0' <= #[trigger] decimal(n)[i] <= '9',
        decimal(n).len() > 1 ==> decimal(n)[0] != '0',
    decreases n,
{
    reveal_with_fuel(number_of, 2);
    if n < 10 {
        assert(decimal(n).drop_last() =~= Seq::<char>::empty());
    } else {
        numerals_stand_for_their_number(n / 10);
        let front = decimal(n / 10);
        assert(decimal(n).drop_last() =~= front);
        if front.len() == 1 {
            reveal_with_fuel(number_of, 3);
            assert(front.drop_last() =~= Seq::<char>::empty());
            assert(front[0] != '0');
        }
    }
}

/// Different numbers have different numerals.
pub proof fn numerals_differ(a: nat, b: nat)
    requires
        decimal(a) == decimal(b),
    ensures
        a == b,
{
    numerals_stand_for_their_number(a);
    numerals_stand_for_their_number(b);
}

/// Padding fills a text up to a width with spaces on one side and keeps it on
/// the other; a text that is wide enough stays as it is.
pub proof fn padding_fills_up_with_spaces(s: Seq<char>, width: nat)
    ensures
        s.len() >= width ==> padded_end(s, width) == s && padded_start(s, width) == s,
        s.len() < width ==> {
            let gap = width - s.len();
            &&& padded_end(s, width).len() == width
            &&& padded_end(s, width).take(s.len() as int) == s
            &&& forall|i: int| s.len() <= i < width ==> #[trigger] padded_end(s, width)[i] == ' '
            &&& padded_start(s, width).len() == width
            &&& padded_start(s, width).skip(gap) == s
            &&& forall|i: int| 0 <= i < gap ==> #[trigger] padded_start(s, width)[i] == ' '
        },
{
    if s.len() < width {
        assert(padded_end(s, width).take(s.len() as int) =~= s);
        assert(padded_start(s, width).skip(width - s.len()) =~= s);
    }
}

/// A rule consists of one character throughout.
pub proof fn rules_are_even(c: char, n: nat)
    ensures
        repeated(c, n).len() == n,
        forall|i: int| 0 <= i < n ==> #[trigger] repeated(c, n)[i] == c,
{
}

/// One text joined is that text; of two lists joined, what comes from the first
/// stands in front, the separator between, and what comes from the second behind.
pub proof fn joining_puts_separators_between(
    a: Seq<Seq<char>>,
    b: Seq<Seq<char>>,
    sep: Seq<char>,
)
    ensures
        a.len() == 1 ==> joined(a, 1, sep) == a[0],
        a.len() > 0 && b.len() > 0 ==> joined(a + b, (a + b).len() as int, sep) == joined(
            a,
            a.len() as int,
            sep,
        ) + sep + joined(b, b.len() as int, sep),
{
    if a.len() > 0 && b.len() > 0 {
        lemma_joined_concat(a, b, b.len() as int, sep);
    }
}

pub(crate) proof fn lemma_joined_prefix(a: Seq<Seq<char>>, b: Seq<Seq<char>>, n: int, sep: Seq<char>)
    requires
        0 <= n <= a.len(),
    ensures
        joined(a + b, n, sep) == joined(a, n, sep),
    decreases n,
{
    if n > 1 {
        lemma_joined_prefix(a, b, n - 1, sep);
    }
}

proof fn lemma_joined_concat(a: Seq<Seq<char>>, b: Seq<Seq<char>>, n: int, sep: Seq<char>)
    requires
        a.len() > 0,
        1 <= n <= b.len(),
    ensures
        joined(a + b, a.len() + n, sep) == joined(a, a.len() as int, sep) + sep + joined(b, n, sep),
    decreases n,
{
    lemma_joined_prefix(a, b, a.len() as int, sep);
    assert((a + b)[a.len() + n - 1] == b[n - 1]);
    if n > 1 {
        lemma_joined_concat(a, b, n - 1, sep);
    }
    assert(joined(a + b, a.len() + n, sep) =~= joined(a, a.len() as int, sep) + sep + joined(
        b,
        n,
        sep,
    ));
}

/// Without colour a text is shown as it is. With colour it stands, as it is,
/// between the sequences of its style, and those of an outer style stand around
/// the ones of the inner.
pub proof fn colour_stands_around_the_text(s: Seq<char>, inner: Style, outer: Style)
    ensures
        painted(s, false, inner) == s,
        painted_twice(s, false, inner, outer) == s,
        painted(s, true, inner) == opening(inner) + s + closing(inner),
        painted_twice(s, true, inner, outer) == opening(outer) + opening(inner) + s + closing(inner)
            + closing(outer),
{
    assert(painted_twice(s, true, inner, outer) =~= opening(outer) + opening(inner) + s + closing(
        inner,
    ) + closing(outer));
}

} // verus!
