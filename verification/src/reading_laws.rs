//! What is read from a report, in terms of the members of its JSON objects.

use crate::commit::{
    commits, contents, effective_findings, plan_list, plan_text, sha12, sha_divides, subject, title,
};
use crate::json::{json, trees, trees_at, JsonNumber, JsonTree};
use crate::text::{texts, trimmed};
use crate::usage::content;
use serde_json::Value;
use vstd::prelude::*;
use vstd::utf8::{
    decode_utf8_encode_utf8, encode_utf8, encode_utf8_valid_utf8, is_char_boundary,
    valid_utf8_split,
};

verus! {

/// An object has the members that its map holds; nothing else has members.
pub proof fn members_are_those_of_objects(
    t: JsonTree,
    m: Map<Seq<char>, JsonTree>,
    key: Seq<char>,
    v: JsonTree,
)
    ensures
        JsonTree::Object(m.insert(key, v)).get(key) == Some(v),
        JsonTree::Object(m.remove(key)).get(key) is None,
        !(t is Object) ==> t.get(key) is None,
{
}

/// A member is read as a text, as a set flag, as a number or as a list only if
/// it is one. A count may be kept as a signed integer, as long as it is not
/// negative.
pub proof fn members_are_read_by_their_kind(
    t: JsonTree,
    key: Seq<char>,
    s: Seq<char>,
    n: u64,
    a: Seq<JsonTree>,
)
    ensures
        t.text(key) == Some(s) <==> t.get(key) == Some(JsonTree::Text(s)),
        t.flag(key) <==> t.get(key) == Some(JsonTree::Bool(true)),
        t.uint(key) == Some(n) <==> t.get(key) == Some(JsonTree::Number(JsonNumber::PosInt(n))),
        t.count(key) == Some(n) <==> {
            ||| t.get(key) == Some(JsonTree::Number(JsonNumber::PosInt(n)))
            ||| t.get(key) matches Some(JsonTree::Number(JsonNumber::NegInt(i))) && i == n
        },
        t.items(key) == Some(a) <==> t.get(key) == Some(JsonTree::Array(a)),
{
}

/// The commits of a report are the items of its list of commits; a report
/// without such a list has none.
pub proof fn commits_are_those_listed(out: JsonTree, a: Seq<JsonTree>)
    ensures
        out.get("commits"@) == Some(JsonTree::Array(a)) ==> commits(out) == a,
        !(out.get("commits"@) matches Some(JsonTree::Array(_))) ==> commits(out).len() == 0,
{
}

/// A hash of at most twelve bytes is shown whole, a longer one by its first
/// twelve bytes, which must end with a character. A question mark stands for a
/// hash that is missing.
pub proof fn hashes_are_shown_by_twelve_bytes(c: JsonTree, s: Seq<char>)
    ensures
        c.text("sha"@) == Some(s) && encode_utf8(s).len() <= 12 ==> sha_divides(c) && sha12(c) == s,
        c.text("sha"@) == Some(s) && encode_utf8(s).len() > 12 ==> {
            &&& sha_divides(c) == is_char_boundary(encode_utf8(s), 12)
            &&& sha_divides(c) ==> encode_utf8(sha12(c)) == encode_utf8(s).take(12)
        },
        c.text("sha"@) is None ==> sha_divides(c) && sha12(c) == seq!['?'],
{
    reveal_strlit("?");
    assert("?"@ =~= seq!['?']);
    reveal_with_fuel(encode_utf8, 2);
    let bytes = encode_utf8(s);
    encode_utf8_valid_utf8(s);
    if c.text("sha"@) == Some(s) && bytes.len() > 12 && sha_divides(c) {
        valid_utf8_split(bytes, 12);
        decode_utf8_encode_utf8(bytes.subrange(0, 12));
        assert(bytes.take(12) =~= bytes.subrange(0, 12));
    }
}

/// A text counts as there if it holds more than white space, and then without
/// the white space around it.
pub proof fn blank_texts_count_as_missing(s: Seq<char>)
    ensures
        trimmed(s).len() > 0 ==> content(Some(s)) == Some(trimmed(s)),
        trimmed(s).len() == 0 ==> content(Some(s)) is None,
        content(None) is None,
{
}

/// A commit's title is its shown hash, and two spaces and its subject behind it
/// unless that is missing or blank.
pub proof fn titles_name_hash_and_subject(c: JsonTree, s: Seq<char>)
    ensures
        c.text("subject"@) == Some(s) && trimmed(s).len() > 0 ==> {
            &&& subject(c) == Some(trimmed(s))
            &&& title(c).take(sha12(c).len() as int) == sha12(c)
            &&& title(c).skip(sha12(c).len() as int) == seq![' ', ' '] + trimmed(s)
        },
        c.text("subject"@) == Some(s) && trimmed(s).len() == 0 ==> subject(c) is None && title(c)
            == sha12(c),
        c.text("subject"@) is None ==> subject(c) is None && title(c) == sha12(c),
{
    reveal_strlit("  ");
    if c.text("subject"@) == Some(s) && trimmed(s).len() > 0 {
        assert("  "@ =~= seq![' ', ' ']);
        assert(title(c).take(sha12(c).len() as int) =~= sha12(c));
        assert(title(c).skip(sha12(c).len() as int) =~= seq![' ', ' '] + trimmed(s));
    }
}

/// The validated findings are shown if they are asked for and listed, even if
/// the list is empty; the raw ones in every other case.
pub proof fn validated_findings_are_preferred(c: JsonTree, raw: Seq<JsonTree>, kept: Seq<JsonTree>)
    ensures
        c.items("validated_findings"@) == Some(kept) ==> effective_findings(c, true) == Some(kept),
        c.items("validated_findings"@) is None && c.items("findings"@) == Some(raw)
            ==> effective_findings(c, true) == Some(raw),
        c.items("findings"@) == Some(raw) ==> effective_findings(c, false) == Some(raw),
        c.items("findings"@) is None ==> effective_findings(c, false) is None,
{
}

/// A text of the test plan goes before the commit's own, even where it is
/// blank; blank texts count as missing.
pub proof fn plan_texts_go_before_the_commits(
    c: JsonTree,
    plan: JsonTree,
    key: Seq<char>,
    fallback: Seq<char>,
    s: Seq<char>,
)
    ensures
        c.get("test_plan"@) == Some(plan) && plan.text(key) == Some(s) ==> plan_text(
            c,
            key,
            fallback,
        ) == content(Some(s)),
        c.get("test_plan"@) == Some(plan) && plan.text(key) is None ==> plan_text(c, key, fallback)
            == content(c.text(fallback)),
        c.get("test_plan"@) is None ==> plan_text(c, key, fallback) == content(c.text(fallback)),
{
}

/// The entries of a list of the test plan are its texts that are not blank,
/// trimmed and in order: an entry that is added at the end of the list comes
/// last if it is such a text, and changes nothing if it is not.
pub proof fn plan_entries_are_the_texts_that_are_not_blank(
    c: JsonTree,
    plan: JsonTree,
    key: Seq<char>,
    vs: Seq<JsonTree>,
    v: JsonTree,
    s: Seq<char>,
)
    ensures
        c.get("test_plan"@) == Some(plan) && plan.items(key) == Some(vs) ==> plan_list(c, key)
            == contents(vs, vs.len() as int),
        c.get("test_plan"@) == Some(plan) && plan.items(key) is None ==> plan_list(c, key).len()
            == 0,
        c.get("test_plan"@) is None ==> plan_list(c, key).len() == 0,
        contents(Seq::empty(), 0).len() == 0,
        v == JsonTree::Text(s) && trimmed(s).len() > 0 ==> contents(vs.push(v), 1 + vs.len() as int)
            == contents(vs, vs.len() as int).push(trimmed(s)),
        v == JsonTree::Text(s) && trimmed(s).len() == 0 ==> contents(vs.push(v), 1 + vs.len() as int)
            == contents(vs, vs.len() as int),
        !(v is Text) ==> contents(vs.push(v), 1 + vs.len() as int) == contents(vs, vs.len() as int),
{
    lemma_contents_prefix(vs, v, vs.len() as int);
}

proof fn lemma_contents_prefix(vs: Seq<JsonTree>, v: JsonTree, n: int)
    requires
        0 <= n <= vs.len(),
    ensures
        contents(vs.push(v), n) == contents(vs, n),
    decreases n,
{
    if n > 0 {
        lemma_contents_prefix(vs, v, n - 1);
    }
}

/// Of a list of values each is read in its place, and so is each text of a list
/// of strings.
pub proof fn lists_are_read_in_order(
    vs: Seq<Value>,
    refs: Seq<&Value>,
    strings: Seq<String>,
    i: int,
)
    ensures
        trees(vs).len() == vs.len(),
        trees_at(refs).len() == refs.len(),
        texts(strings).len() == strings.len(),
        0 <= i < vs.len() ==> trees(vs)[i] == json(vs[i]),
        0 <= i < refs.len() ==> trees_at(refs)[i] == json(*refs[i]),
        0 <= i < strings.len() ==> texts(strings)[i] == strings[i]@,
{
}

} // verus!
