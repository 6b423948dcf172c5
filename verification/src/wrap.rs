//! Word wrapping.

use crate::text::{
    chars_of, lines, split_lines, split_whitespace, string_of, texts, trim, trimmed, words,
};
use crate::wrap_laws::{
    all_solid, fit, solid, wrapped_bodies_fit_and_keep_the_text, wrapped_lines_fit,
    wrapping_keeps_the_text,
};
use vstd::prelude::*;

verus! {

/// A width of which at least one character is always granted.
pub open spec fn at_least_one(width: nat) -> nat {
    if width == 0 {
        1
    } else {
        width
    }
}

/// `s` cut into pieces of `n` characters; the last piece holds what is left.
pub open spec fn chunks(s: Seq<char>, n: nat) -> Seq<Seq<char>>
    decreases s.len(),
{
    if s.len() == 0 {
        Seq::empty()
    } else if n == 0 || s.len() <= n {
        seq![s]
    } else {
        seq![s.take(n as int)] + chunks(s.skip(n as int), n)
    }
}

/// A word longer than `width`, cut over several lines: the first is filled to
/// `width` characters, and none of the others exceeds `width` or `cont`.
pub open spec fn cut(word: Seq<char>, width: nat, cont: nat) -> Seq<Seq<char>> {
    seq![word.take(width as int)] + chunks(
        word.skip(width as int),
        if width <= cont {
            width
        } else {
            cont
        },
    )
}

/// The lines that `ws` fills when the line `cur` is begun and may grow to
/// `width` characters, and each later line to `cont`.
pub open spec fn filled(ws: Seq<Seq<char>>, cur: Seq<char>, width: nat, cont: nat) -> Seq<
    Seq<char>,
>
    decreases ws.len(), cur.len(),
{
    if ws.len() == 0 {
        if cur.len() == 0 {
            Seq::empty()
        } else {
            seq![cur]
        }
    } else if cur.len() == 0 {
        if ws[0].len() > width {
            cut(ws[0], width, cont) + filled(ws.drop_first(), Seq::empty(), cont, cont)
        } else {
            filled(ws.drop_first(), ws[0], width, cont)
        }
    } else if cur.len() + 1 + ws[0].len() > width {
        seq![cur] + filled(ws, Seq::empty(), cont, cont)
    } else {
        filled(ws.drop_first(), cur.push(' ') + ws[0], width, cont)
    }
}

/// The words of `text`, laid out on a first line of at most `first` characters
/// and further lines of at most `cont`.
pub open spec fn wrapped(text: Seq<char>, first: nat, cont: nat) -> Seq<Seq<char>> {
    filled(words(text), Seq::empty(), at_least_one(first), at_least_one(cont))
}

/// Cuts `s` into pieces of `max_chars` characters, or of one if that is zero.
pub fn split_char_chunks(s: &str, max_chars: usize) -> (r: Vec<String>)
    ensures
        texts(r@) == chunks(s@, at_least_one(max_chars as nat)),
{
    let max_chars: usize = if max_chars == 0 { 1 } else { max_chars };
    let cs = chars_of(s);
    let mut out: Vec<String> = Vec::new();
    let mut i: usize = 0;
    assert(s@.skip(0) =~= s@);
    assert(texts(out@) + chunks(s@, max_chars as nat) =~= chunks(s@, max_chars as nat));
    while i < cs.len()
        invariant
            cs@ == s@,
            max_chars > 0,
            i <= cs@.len(),
            texts(out@) + chunks(s@.skip(i as int), max_chars as nat) == chunks(
                s@,
                max_chars as nat,
            ),
        decreases cs@.len() - i,
    {
        let end: usize = if cs.len() - i <= max_chars { cs.len() } else { i + max_chars };
        let ghost prior = out@;
        let ghost rest = s@.skip(i as int);
        out.push(string_of(&cs, i, end));
        proof {
            assert(s@.subrange(i as int, end as int) =~= rest.take(end - i));
            assert(texts(out@) =~= texts(prior).push(rest.take(end - i)));
            assert(s@.skip(end as int) =~= rest.skip(end - i));
            assert(rest.take(rest.len() as int) =~= rest);
            assert(texts(out@) + chunks(s@.skip(end as int), max_chars as nat) =~= texts(prior)
                + chunks(rest, max_chars as nat));
        }
        i = end;
    }
    assert(texts(out@) =~= chunks(s@, max_chars as nat));
    out
}

/// Appends the strings of `more` to `out`.
fn extend(out: &mut Vec<String>, more: Vec<String>)
    ensures
        texts(final(out)@) == texts(old(out)@) + texts(more@),
{
    let mut more = more;
    let ghost before = out@;
    let ghost added = more@;
    out.append(&mut more);
    assert(texts(out@) =~= texts(before) + texts(added));
}

/// Cuts a word of more than `width` characters over several lines.
fn cut_word(word: &str, width: usize, cont: usize) -> (r: Vec<String>)
    requires
        0 < width < word@.len(),
        0 < cont,
    ensures
        texts(r@) == cut(word@, width as nat, cont as nat),
{
    let cs = chars_of(word);
    let mut out: Vec<String> = Vec::new();
    out.push(string_of(&cs, 0, width));
    let rest = string_of(&cs, width, cs.len());
    assert(rest@ =~= word@.skip(width as int));
    assert(word@.subrange(0, width as int) =~= word@.take(width as int));
    assert(texts(out@) =~= seq![word@.take(width as int)]);
    extend(&mut out, split_char_chunks(rest.as_str(), if width <= cont { width } else { cont }));
    out
}

/// Word-wraps `text` at white space: the first line holds at most
/// `first_width` characters, every other line at most `cont_width`. A word
/// that no line can hold is cut.
pub fn wrap_words(text: &str, first_width: usize, cont_width: usize) -> (r: Vec<String>)
    ensures
        texts(r@) == wrapped(text@, first_width as nat, cont_width as nat),
        fit(
            texts(r@),
            at_least_one(first_width as nat),
            at_least_one(cont_width as nat),
        ),
        all_solid(texts(r@)) == solid(text@),
{
    proof {
        wrapped_lines_fit(text@, first_width as nat, cont_width as nat);
        wrapping_keeps_the_text(text@, first_width as nat, cont_width as nat);
    }
    let first_width: usize = if first_width == 0 { 1 } else { first_width };
    let cont_width: usize = if cont_width == 0 { 1 } else { cont_width };
    let ws = split_whitespace(text);
    let ghost target = wrapped(text@, first_width as nat, cont_width as nat);

    let mut out: Vec<String> = Vec::new();
    let mut cur = String::new();
    let mut max_w: usize = first_width;
    let mut i: usize = 0;
    proof {
        assert(texts(ws@).skip(0) =~= texts(ws@));
        assert(texts(out@) + target =~= target);
        assert(cur@ =~= Seq::<char>::empty());
    }
    while i < ws.len()
        invariant
            i <= ws@.len(),
            max_w > 0,
            cont_width > 0,
            texts(out@) + filled(
                texts(ws@).skip(i as int),
                cur@,
                max_w as nat,
                cont_width as nat,
            ) == target,
        decreases ws@.len() - i, cur@.len(),
    {
        let w = ws[i].as_str();
        let wl = w.unicode_len();
        let ghost left = texts(ws@).skip(i as int);
        let ghost prior = out@;
        let ghost line = cur@;
        let ghost width = max_w as nat;
        let ghost cont = cont_width as nat;
        assert(left[0] == w@);
        assert(left.drop_first() =~= texts(ws@).skip(i + 1));

        if cur.as_str().is_empty() {
            assert(line =~= Seq::<char>::empty());
            if wl > max_w {
                extend(&mut out, cut_word(w, max_w, cont_width));
                max_w = cont_width;
                assert(texts(out@) + filled(left.drop_first(), Seq::empty(), cont, cont)
                    =~= texts(prior) + filled(left, line, width, cont));
            } else {
                cur = String::from_str(w);
            }
            i = i + 1;
        } else if cur.unicode_len() as u128 + 1 + wl as u128 > max_w as u128 {
            out.push(cur);
            cur = String::new();
            max_w = cont_width;
            assert(texts(out@) =~= texts(prior).push(line));
            assert(texts(out@) + filled(left, Seq::empty(), cont, cont) =~= texts(prior) + filled(
                left,
                line,
                width,
                cont,
            ));
        } else {
            cur.push(' ');
            cur.append(w);
            i = i + 1;
        }
    }
    let ghost prior = out@;
    let ghost line = cur@;
    if !cur.as_str().is_empty() {
        out.push(cur);
        assert(texts(out@) =~= texts(prior) + seq![line]);
    } else {
        assert(texts(out@) =~= target);
    }
    out
}

/// Whether a line holds nothing but white space.
pub open spec fn blank(line: Seq<char>) -> bool {
    trimmed(line).len() == 0
}

/// The first `n` of `ls`, without the blank ones and without the white space
/// around the others.
pub open spec fn paragraphs(ls: Seq<Seq<char>>, n: int) -> Seq<Seq<char>>
    decreases n,
{
    if n <= 0 {
        Seq::empty()
    } else if blank(ls[n - 1]) {
        paragraphs(ls, n - 1)
    } else {
        paragraphs(ls, n - 1).push(trimmed(ls[n - 1]))
    }
}

/// The first `n` of `ps`, each wrapped; only the very first line is held to
/// `first`.
pub open spec fn wrapped_each(ps: Seq<Seq<char>>, n: int, first: nat, cont: nat) -> Seq<Seq<char>>
    decreases n,
{
    if n <= 0 {
        Seq::empty()
    } else {
        wrapped_each(ps, n - 1, first, cont) + wrapped(
            ps[n - 1],
            if n == 1 {
                first
            } else {
                cont
            },
            cont,
        )
    }
}

/// The lines of a finding's text: its lines that are not blank, each wrapped
/// on its own.
pub open spec fn wrapped_body(text: Seq<char>, first: nat, cont: nat) -> Seq<Seq<char>> {
    let ps = paragraphs(lines(text), lines(text).len() as int);
    wrapped_each(ps, ps.len() as int, first, cont)
}

pub(crate) proof fn lemma_wrapped_each_prefix(
    ps: Seq<Seq<char>>,
    p: Seq<char>,
    n: int,
    first: nat,
    cont: nat,
)
    requires
        0 <= n <= ps.len(),
    ensures
        wrapped_each(ps.push(p), n, first, cont) == wrapped_each(ps, n, first, cont),
    decreases n,
{
    if n > 0 {
        lemma_wrapped_each_prefix(ps, p, n - 1, first, cont);
    }
}

/// Wraps the paragraphs of `text`, that is its lines that are not blank. The
/// first line may hold `first_budget` characters, every other `cont_budget`.
pub fn wrap_finding_body(text: &str, first_budget: usize, cont_budget: usize) -> (r: Vec<String>)
    ensures
        texts(r@) == wrapped_body(text@, first_budget as nat, cont_budget as nat),
        fit(
            texts(r@),
            at_least_one(first_budget as nat),
            at_least_one(cont_budget as nat),
        ),
        all_solid(texts(r@)) == solid(text@),
{
    proof {
        wrapped_bodies_fit_and_keep_the_text(
            text@,
            first_budget as nat,
            cont_budget as nat,
        );
    }
    let ls = split_lines(text);
    let mut out: Vec<String> = Vec::new();
    let mut any = false;
    let mut i: usize = 0;
    assert(texts(out@) =~= Seq::<Seq<char>>::empty());
    while i < ls.len()
        invariant
            i <= ls@.len(),
            any == (paragraphs(texts(ls@), i as int).len() > 0),
            texts(out@) == wrapped_each(
                paragraphs(texts(ls@), i as int),
                paragraphs(texts(ls@), i as int).len() as int,
                first_budget as nat,
                cont_budget as nat,
            ),
        decreases ls@.len() - i,
    {
        let para = trim(ls[i].as_str());
        if !para.as_str().is_empty() {
            let budget: usize = if any { cont_budget } else { first_budget };
            proof {
                let ps = paragraphs(texts(ls@), i as int);
                lemma_wrapped_each_prefix(
                    ps,
                    para@,
                    ps.len() as int,
                    first_budget as nat,
                    cont_budget as nat,
                );
            }
            extend(&mut out, wrap_words(para.as_str(), budget, cont_budget));
            any = true;
        }
        i = i + 1;
    }
    out
}

} // verus!
