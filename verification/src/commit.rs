//! What the report reads of a commit.

use crate::json::{get, held_all, items, json, text, trees, trees_at, JsonTree};
use crate::text::texts;
use crate::usage::{content, content_of};
use serde_json::Value;
use vstd::prelude::*;
use vstd::utf8::{
    decode_utf8, encode_utf8, encode_utf8_decode_utf8, encode_utf8_valid_utf8, is_ascii_chars,
    is_ascii_chars_encode_utf8, is_char_boundary, is_char_boundary_iff_not_is_continuation_byte,
};

verus! {

/// The commits of a report.
pub open spec fn commits(out: JsonTree) -> Seq<JsonTree> {
    match out.items("commits"@) {
        Some(a) => a,
        None => Seq::empty(),
    }
}

/// The commits of the report `out`.
pub fn commits_slice(out: &Value) -> (r: Vec<&Value>)
    ensures
        trees_at(r@) == commits(json(*out)),
{
    let mut r: Vec<&Value> = Vec::new();
    if let Some(a) = items(out, "commits") {
        let mut i: usize = 0;
        while i < a.len()
            invariant
                i <= a@.len(),
                r@.len() == i,
                forall|j: int| 0 <= j < i ==> json(*(#[trigger] r@[j])) == json(a@[j]),
            decreases a@.len() - i,
        {
            r.push(&a[i]);
            i = i + 1;
        }
        assert(trees_at(r@) =~= trees(a@));
    } else {
        assert(trees_at(r@) =~= Seq::<JsonTree>::empty());
    }
    r
}

/// The commit's hash, a question mark where it is missing.
pub open spec fn full_sha(c: JsonTree) -> Seq<char> {
    match c.text("sha"@) {
        Some(s) => s,
        None => "?"@,
    }
}

/// Whether the commit's hash can be cut: where it takes more than twelve bytes
/// of UTF-8, no character lies across the twelfth and the thirteenth.
pub open spec fn sha_divides(c: JsonTree) -> bool {
    encode_utf8(full_sha(c)).len() > 12 ==> is_char_boundary(encode_utf8(full_sha(c)), 12)
}

/// Whether the hash of the commit `c` can be cut.
pub(crate) fn sha_can_be_cut(c: &Value) -> (r: bool)
    ensures
        r == sha_divides(json(*c)),
{
    let full = match text(c, "sha") {
        Some(s) => s,
        None => "?",
    };
    full.as_bytes().len() <= 12 || full.is_char_boundary(12)
}

/// The first twelve bytes of the commit's hash.
pub open spec fn sha12(c: JsonTree) -> Seq<char> {
    let bytes = encode_utf8(full_sha(c));
    if bytes.len() > 12 {
        decode_utf8(bytes.subrange(0, 12))
    } else {
        full_sha(c)
    }
}

/// The abbreviated hash of the commit `c`.
pub fn short_sha(c: &Value) -> (r: String)
    requires
        sha_divides(json(*c)),
    ensures
        r@ == sha12(json(*c)),
{
    let full = match text(c, "sha") {
        Some(s) => s,
        None => "?",
    };
    if full.as_bytes().len() > 12 {
        let (head, _) = full.split_at(12);
        proof {
            encode_utf8_decode_utf8(head@);
        }
        String::from_str(head)
    } else {
        String::from_str(full)
    }
}

/// A hash of ASCII characters can always be cut, and its first twelve
/// characters are what is left of it.
pub proof fn ascii_sha_is_cut_to_twelve_characters(c: JsonTree)
    requires
        is_ascii_chars(full_sha(c)),
    ensures
        sha_divides(c),
        sha12(c) == (if full_sha(c).len() > 12 {
            full_sha(c).take(12)
        } else {
            full_sha(c)
        }),
{
    let full = full_sha(c);
    let bytes = encode_utf8(full);
    is_ascii_chars_encode_utf8(full);
    encode_utf8_valid_utf8(full);
    if full.len() > 12 {
        let head = full.take(12);
        assert('\0' <= full[12] <= '\u{7f}');
        assert(full[12] as u8 == bytes[12]);
        assert(bytes[12] < 128);
        is_char_boundary_iff_not_is_continuation_byte(bytes, 12);
        assert(is_ascii_chars(head));
        is_ascii_chars_encode_utf8(head);
        assert forall|i: int| 0 <= i < 12 implies encode_utf8(head)[i] == bytes[i] by {
            assert(head[i] as u8 == encode_utf8(head)[i]);
            assert(full[i] as u8 == bytes[i]);
        }
        assert(encode_utf8(head) =~= bytes.subrange(0, 12));
        encode_utf8_decode_utf8(head);
    }
}

/// The commit's subject, unless it is missing or blank.
pub open spec fn subject(c: JsonTree) -> Option<Seq<char>> {
    content(c.text("subject"@))
}

/// The subject of the commit `c`.
pub fn commit_subject(c: &Value) -> (r: Option<String>)
    ensures
        match r {
            Some(s) => subject(json(*c)) == Some(s@),
            None => subject(json(*c)) is None,
        },
{
    content_of(text(c, "subject"))
}

/// The commit's abbreviated hash, followed by its subject if it has one.
pub open spec fn title(c: JsonTree) -> Seq<char> {
    match subject(c) {
        Some(s) => sha12(c) + "  "@ + s,
        None => sha12(c),
    }
}

/// The title of the commit `c`.
pub fn commit_title(c: &Value) -> (r: String)
    requires
        sha_divides(json(*c)),
    ensures
        r@ == title(json(*c)),
{
    let sha = short_sha(c);
    match commit_subject(c) {
        Some(s) => sha.concat("  ").concat(s.as_str()),
        None => sha,
    }
}

/// The findings that are reported of a commit: the validated ones if they are
/// asked for and there, and else those that were made.
pub open spec fn effective_findings(c: JsonTree, use_validated: bool) -> Option<Seq<JsonTree>> {
    if use_validated && c.items("validated_findings"@) is Some {
        c.items("validated_findings"@)
    } else {
        c.items("findings"@)
    }
}

/// The findings to report of `commit`.
pub fn commit_effective_findings(commit: &Value, use_validated: bool) -> (r: Option<&Vec<Value>>)
    ensures
        held_all(r) == effective_findings(json(*commit), use_validated),
{
    if use_validated {
        if let Some(arr) = items(commit, "validated_findings") {
            return Some(arr);
        }
    }
    items(commit, "findings")
}

/// A text of the commit's test plan, or else of the commit itself, unless it is
/// blank.
pub open spec fn plan_text(c: JsonTree, key: Seq<char>, fallback: Seq<char>) -> Option<Seq<char>> {
    let planned = match c.get("test_plan"@) {
        Some(p) => p.text(key),
        None => None,
    };
    content(
        match planned {
            Some(s) => Some(s),
            None => c.text(fallback),
        },
    )
}

/// The text `key` of the test plan of `commit`, or its own text `fallback_key`.
pub fn test_plan_string(commit: &Value, key: &str, fallback_key: &str) -> (r: Option<String>)
    ensures
        match r {
            Some(s) => plan_text(json(*commit), key@, fallback_key@) == Some(s@),
            None => plan_text(json(*commit), key@, fallback_key@) is None,
        },
{
    let planned = match get(commit, "test_plan") {
        Some(p) => text(p, key),
        None => None,
    };
    match planned {
        Some(s) => content_of(Some(s)),
        None => content_of(text(commit, fallback_key)),
    }
}

/// The texts among the first `n` of `vs` that are not blank, without the white
/// space around them.
pub open spec fn contents(vs: Seq<JsonTree>, n: int) -> Seq<Seq<char>>
    decreases n,
{
    if n <= 0 {
        Seq::empty()
    } else {
        match content(vs[n - 1].as_str()) {
            Some(s) => contents(vs, n - 1).push(s),
            None => contents(vs, n - 1),
        }
    }
}

/// The entries of a list of the commit's test plan.
pub open spec fn plan_list(c: JsonTree, key: Seq<char>) -> Seq<Seq<char>> {
    match c.get("test_plan"@) {
        Some(p) => match p.items(key) {
            Some(vs) => contents(vs, vs.len() as int),
            None => Seq::empty(),
        },
        None => Seq::empty(),
    }
}

/// The entries of the list `key` of the test plan of `commit`.
pub fn test_plan_array(commit: &Value, key: &str) -> (r: Vec<String>)
    ensures
        texts(r@) == plan_list(json(*commit), key@),
{
    let mut r: Vec<String> = Vec::new();
    assert(texts(r@) =~= Seq::<Seq<char>>::empty());
    let found = match get(commit, "test_plan") {
        Some(p) => items(p, key),
        None => None,
    };
    if let Some(arr) = found {
        let mut i: usize = 0;
        while i < arr.len()
            invariant
                i <= arr@.len(),
                texts(r@) == contents(trees(arr@), i as int),
            decreases arr@.len() - i,
        {
            let ghost prior = r@;
            if let Some(s) = content_of(arr[i].as_str()) {
                r.push(s);
                assert(texts(r@) =~= texts(prior).push(s@));
            }
            i = i + 1;
        }
    }
    r
}

} // verus!
