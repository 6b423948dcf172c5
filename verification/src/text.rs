//! Text at the level of Unicode characters: white space, lines, words,
//! padding and decimal numbers.

use vstd::prelude::*;

verus! {

/// `String::push` appends its character to the string.
pub assume_specification[ String::push ](s: &mut String, c: char)
    ensures
        final(s)@ == old(s)@.push(c),
;

/// The texts of a list of strings.
pub open spec fn texts(v: Seq<String>) -> Seq<Seq<char>> {
    Seq::new(v.len(), |i: int| v[i]@)
}

/// The characters that have the Unicode property `White_Space`.
pub open spec fn white_space(c: char) -> bool {
    ||| '\u{9}' <= c <= '\u{d}'
    ||| c == '\u{20}'
    ||| c == '\u{85}'
    ||| c == '\u{a0}'
    ||| c == '\u{1680}'
    ||| '\u{2000}' <= c <= '\u{200a}'
    ||| c == '\u{2028}'
    ||| c == '\u{2029}'
    ||| c == '\u{202f}'
    ||| c == '\u{205f}'
    ||| c == '\u{3000}'
}

/// Whether `c` is white space.
pub fn is_white_space(c: char) -> (r: bool)
    ensures
        r == white_space(c),
{
    ('\u{9}' <= c && c <= '\u{d}') || c == '\u{20}' || c == '\u{85}' || c == '\u{a0}' || c
        == '\u{1680}' || ('\u{2000}' <= c && c <= '\u{200a}') || c == '\u{2028}' || c == '\u{2029}'
        || c == '\u{202f}' || c == '\u{205f}' || c == '\u{3000}'
}

/// The characters of `s`, in order.
pub(crate) fn chars_of(s: &str) -> (r: Vec<char>)
    ensures
        r@ == s@,
{
    let mut r: Vec<char> = Vec::new();
    for c in it: s.chars()
        invariant
            it.seq() == s@,
            r@ == s@.take(it.index() as int),
    {
        r.push(c);
    }
    r
}

/// The string of the characters of `cs` from `from` up to `to`.
pub(crate) fn string_of(cs: &Vec<char>, from: usize, to: usize) -> (r: String)
    requires
        from <= to <= cs@.len(),
    ensures
        r@ == cs@.subrange(from as int, to as int),
{
    let mut r = String::new();
    let mut i: usize = from;
    while i < to
        invariant
            from <= i <= to <= cs@.len(),
            r@ == cs@.subrange(from as int, i as int),
        decreases to - i,
    {
        r.push(cs[i]);
        i = i + 1;
    }
    r
}

/// Whether two texts are the same.
pub(crate) fn same_text(a: &str, b: &str) -> (r: bool)
    ensures
        r == (a@ == b@),
{
    let x = chars_of(a);
    let y = chars_of(b);
    if x.len() != y.len() {
        return false;
    }
    let mut i: usize = 0;
    while i < x.len()
        invariant
            x@ == a@,
            y@ == b@,
            x@.len() == y@.len(),
            i <= x@.len(),
            forall|j: int| 0 <= j < i ==> x@[j] == y@[j],
        decreases x@.len() - i,
    {
        if x[i] != y[i] {
            return false;
        }
        i = i + 1;
    }
    assert(a@ =~= b@);
    true
}

/// The pieces of `s` between the characters that `sep` picks out; one piece
/// more than there are such characters.
pub open spec fn split(s: Seq<char>, sep: spec_fn(char) -> bool) -> Seq<Seq<char>>
    decreases s.len(),
{
    if s.len() == 0 {
        seq![Seq::<char>::empty()]
    } else {
        let before = split(s.drop_last(), sep);
        if sep(s.last()) {
            before.push(Seq::<char>::empty())
        } else {
            before.drop_last().push(before.last().push(s.last()))
        }
    }
}

/// The members of `ps` that are not empty.
pub open spec fn non_empty(ps: Seq<Seq<char>>) -> Seq<Seq<char>>
    decreases ps.len(),
{
    if ps.len() == 0 {
        Seq::empty()
    } else if ps.last().len() == 0 {
        non_empty(ps.drop_last())
    } else {
        non_empty(ps.drop_last()).push(ps.last())
    }
}

/// The predicate that picks out white space.
pub open spec fn is_blank() -> spec_fn(char) -> bool {
    |c: char| white_space(c)
}

/// The predicate that picks out line feeds.
pub open spec fn is_line_feed() -> spec_fn(char) -> bool {
    |c: char| c == '\n'
}

/// The words of `s`: the runs of characters that are not white space.
pub open spec fn words(s: Seq<char>) -> Seq<Seq<char>> {
    non_empty(split(s, is_blank()))
}

/// A terminated line without the carriage return that may end it.
pub open spec fn without_cr(s: Seq<char>) -> Seq<char> {
    if s.len() > 0 && s.last() == '\r' {
        s.drop_last()
    } else {
        s
    }
}

/// The lines of `s`. A line ends at a line feed, which a carriage return may
/// precede; what follows the last line feed is a line if there is anything.
pub open spec fn lines(s: Seq<char>) -> Seq<Seq<char>> {
    let ps = split(s, is_line_feed());
    let ended = ps.drop_last().map_values(|p: Seq<char>| without_cr(p));
    if ps.last().len() == 0 {
        ended
    } else {
        ended.push(ps.last())
    }
}

proof fn lemma_split_step(s: Seq<char>, i: int, sep: spec_fn(char) -> bool)
    requires
        0 <= i < s.len(),
    ensures
        split(s.take(i), sep).len() > 0,
        split(s.take(i + 1), sep) == (if sep(s[i]) {
            split(s.take(i), sep).push(Seq::<char>::empty())
        } else {
            split(s.take(i), sep).drop_last().push(split(s.take(i), sep).last().push(s[i]))
        }),
    decreases i,
{
    assert(s.take(i + 1).drop_last() =~= s.take(i));
    if i > 0 {
        lemma_split_step(s, i - 1, sep);
    }
}

/// The words of `s`, in order.
pub fn split_whitespace(s: &str) -> (r: Vec<String>)
    ensures
        texts(r@) == words(s@),
{
    let cs = chars_of(s);
    let mut r: Vec<String> = Vec::new();
    let mut start: usize = 0;
    let mut i: usize = 0;
    assert(split(s@.take(0), is_blank()) =~~= seq![s@.subrange(0, 0)]);
    while i < cs.len()
        invariant
            cs@ == s@,
            start <= i <= cs@.len(),
            split(s@.take(i as int), is_blank()).len() > 0,
            split(s@.take(i as int), is_blank()).last() == s@.subrange(start as int, i as int),
            texts(r@) == non_empty(split(s@.take(i as int), is_blank()).drop_last()),
        decreases cs@.len() - i,
    {
        let ghost before = split(s@.take(i as int), is_blank());
        let ghost after = split(s@.take(i + 1), is_blank());
        proof {
            lemma_split_step(s@, i as int, is_blank());
        }
        if is_white_space(cs[i]) {
            assert(after.drop_last() =~= before);
            if start < i {
                let ghost prior = r@;
                r.push(string_of(&cs, start, i));
                assert(texts(r@) =~= texts(prior).push(before.last()));
            }
            start = i + 1;
            assert(after.last() =~= s@.subrange(start as int, i + 1));
        } else {
            assert(after.drop_last() =~= before.drop_last());
            assert(after.last() =~= s@.subrange(start as int, i + 1));
        }
        i = i + 1;
    }
    assert(s@.take(i as int) =~= s@);
    if start < i {
        let ghost prior = r@;
        r.push(string_of(&cs, start, i));
        assert(texts(r@) =~= texts(prior).push(s@.subrange(start as int, i as int)));
    }
    r
}

/// The lines of `s`, in order.
pub fn split_lines(s: &str) -> (r: Vec<String>)
    ensures
        texts(r@) == lines(s@),
{
    let cs = chars_of(s);
    let mut r: Vec<String> = Vec::new();
    let mut start: usize = 0;
    let mut i: usize = 0;
    let ghost strip = |p: Seq<char>| without_cr(p);
    assert(split(s@.take(0), is_line_feed()) =~~= seq![s@.subrange(0, 0)]);
    while i < cs.len()
        invariant
            cs@ == s@,
            start <= i <= cs@.len(),
            strip == (|p: Seq<char>| without_cr(p)),
            split(s@.take(i as int), is_line_feed()).len() > 0,
            split(s@.take(i as int), is_line_feed()).last() == s@.subrange(start as int, i as int),
            texts(r@) == split(s@.take(i as int), is_line_feed()).drop_last().map_values(strip),
        decreases cs@.len() - i,
    {
        let ghost before = split(s@.take(i as int), is_line_feed());
        let ghost after = split(s@.take(i + 1), is_line_feed());
        proof {
            lemma_split_step(s@, i as int, is_line_feed());
        }
        if cs[i] == '\n' {
            let ghost prior = r@;
            let end: usize = if start < i && cs[i - 1] == '\r' { i - 1 } else { i };
            r.push(string_of(&cs, start, end));
            assert(s@.subrange(start as int, end as int) =~= without_cr(before.last()));
            assert(after.drop_last() =~= before);
            assert(before.map_values(strip) =~= before.drop_last().map_values(strip).push(
                without_cr(before.last()),
            ));
            assert(texts(r@) =~= texts(prior).push(without_cr(before.last())));
            start = i + 1;
            assert(after.last() =~= s@.subrange(start as int, i + 1));
        } else {
            assert(after.drop_last() =~= before.drop_last());
            assert(after.last() =~= s@.subrange(start as int, i + 1));
        }
        i = i + 1;
    }
    assert(s@.take(i as int) =~= s@);
    if start < i {
        let ghost prior = r@;
        r.push(string_of(&cs, start, i));
        assert(texts(r@) =~= texts(prior).push(s@.subrange(start as int, i as int)));
    }
    r
}

/// `s` without the white space at its start.
pub open spec fn trimmed_start(s: Seq<char>) -> Seq<char>
    decreases s.len(),
{
    if s.len() > 0 && white_space(s[0]) {
        trimmed_start(s.drop_first())
    } else {
        s
    }
}

/// `s` without the white space at its end.
pub open spec fn trimmed_end(s: Seq<char>) -> Seq<char>
    decreases s.len(),
{
    if s.len() > 0 && white_space(s.last()) {
        trimmed_end(s.drop_last())
    } else {
        s
    }
}

/// `s` without the white space at its start and at its end.
pub open spec fn trimmed(s: Seq<char>) -> Seq<char> {
    trimmed_end(trimmed_start(s))
}

/// How much of `cs` from `from` on is left once the white space at its end is
/// taken off.
fn end_of_text(cs: &Vec<char>, from: usize) -> (end: usize)
    requires
        from <= cs@.len(),
    ensures
        from <= end <= cs@.len(),
        cs@.subrange(from as int, end as int) == trimmed_end(cs@.skip(from as int)),
{
    let mut end: usize = cs.len();
    assert(cs@.subrange(from as int, end as int) =~= cs@.skip(from as int));
    while from < end && is_white_space(cs[end - 1])
        invariant
            from <= end <= cs@.len(),
            trimmed_end(cs@.subrange(from as int, end as int)) == trimmed_end(
                cs@.skip(from as int),
            ),
        decreases end,
    {
        assert(cs@.subrange(from as int, end as int).drop_last() =~= cs@.subrange(
            from as int,
            end - 1,
        ));
        end = end - 1;
    }
    end
}

/// `s` without the white space at its end.
pub fn trim_end(s: &str) -> (r: String)
    ensures
        r@ == trimmed_end(s@),
{
    let cs = chars_of(s);
    let end = end_of_text(&cs, 0);
    assert(cs@.skip(0) =~= s@);
    string_of(&cs, 0, end)
}

/// `s` without the white space around it.
pub fn trim(s: &str) -> (r: String)
    ensures
        r@ == trimmed(s@),
{
    let cs = chars_of(s);
    let mut start: usize = 0;
    assert(cs@.skip(0) =~= s@);
    while start < cs.len() && is_white_space(cs[start])
        invariant
            cs@ == s@,
            start <= cs@.len(),
            trimmed_start(cs@.skip(start as int)) == trimmed_start(s@),
        decreases cs@.len() - start,
    {
        assert(cs@.skip(start as int).drop_first() =~= cs@.skip(start + 1));
        start = start + 1;
    }
    let end = end_of_text(&cs, start);
    string_of(&cs, start, end)
}

/// The character `c`, `n` times.
pub open spec fn repeated(c: char, n: nat) -> Seq<char> {
    Seq::new(n, |i: int| c)
}

/// The text of `n` times `c`.
pub(crate) fn repeat(c: char, n: usize) -> (r: String)
    ensures
        r@ == repeated(c, n as nat),
{
    let mut r = String::new();
    let mut i: usize = 0;
    while i < n
        invariant
            i <= n,
            r@ == repeated(c, i as nat),
        decreases n - i,
    {
        r.push(c);
        i = i + 1;
    }
    r
}

/// `s`, filled up with spaces at its end to `width` characters.
pub open spec fn padded_end(s: Seq<char>, width: nat) -> Seq<char> {
    if s.len() < width {
        s + repeated(' ', (width - s.len()) as nat)
    } else {
        s
    }
}

/// `s`, filled up with spaces at its start to `width` characters.
pub open spec fn padded_start(s: Seq<char>, width: nat) -> Seq<char> {
    if s.len() < width {
        repeated(' ', (width - s.len()) as nat) + s
    } else {
        s
    }
}

/// Left-aligns `s` in a column of `width` characters.
pub(crate) fn pad_end(s: &str, width: usize) -> (r: String)
    ensures
        r@ == padded_end(s@, width as nat),
{
    let n = s.unicode_len();
    if n < width {
        String::from_str(s).concat(repeat(' ', width - n).as_str())
    } else {
        String::from_str(s)
    }
}

/// Right-aligns `s` in a column of `width` characters.
pub(crate) fn pad_start(s: &str, width: usize) -> (r: String)
    ensures
        r@ == padded_start(s@, width as nat),
{
    let n = s.unicode_len();
    if n < width {
        repeat(' ', width - n).concat(s)
    } else {
        String::from_str(s)
    }
}

/// The decimal digit for `d`.
pub open spec fn digit(d: nat) -> char {
    (48 + d) as char
}

/// `n` in decimal, without leading zeros.
pub open spec fn decimal(n: nat) -> Seq<char>
    decreases n,
{
    if n < 10 {
        seq![digit(n)]
    } else {
        decimal(n / 10).push(digit(n % 10))
    }
}

/// The decimal text of `n`.
pub(crate) fn decimal_text(n: u64) -> (r: String)
    ensures
        r@ == decimal(n as nat),
    decreases n,
{
    if n < 10 {
        let mut r = String::new();
        r.push((48u8 + n as u8) as char);
        r
    } else {
        let mut r = decimal_text(n / 10);
        r.push((48u8 + (n % 10) as u8) as char);
        r
    }
}

/// The members of `ts`, up to the `n`-th, with `sep` between them.
pub open spec fn joined(ts: Seq<Seq<char>>, n: int, sep: Seq<char>) -> Seq<char>
    decreases n,
{
    if n <= 0 {
        Seq::empty()
    } else if n == 1 {
        ts[0]
    } else {
        joined(ts, n - 1, sep) + sep + ts[n - 1]
    }
}

/// The members of `ts` with `sep` between them.
pub(crate) fn join(ts: &Vec<String>, sep: &str) -> (r: String)
    ensures
        r@ == joined(texts(ts@), ts@.len() as int, sep@),
{
    let mut r = String::new();
    let mut i: usize = 0;
    while i < ts.len()
        invariant
            i <= ts@.len(),
            r@ == joined(texts(ts@), i as int, sep@),
        decreases ts@.len() - i,
    {
        if i > 0 {
            r.append(sep);
        }
        r.append(ts[i].as_str());
        i = i + 1;
    }
    r
}

} // verus!
