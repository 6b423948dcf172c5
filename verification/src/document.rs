//! The report as a JSON document.

use crate::json::{json, JsonTree};
use serde_json::Value;
use vstd::prelude::*;

verus! {

/// The error of `serde_json`.
#[verifier::external_type_specification]
#[verifier::external_body]
pub struct ExError(serde_json::Error);

/// What `serde_json::to_string_pretty` makes of a value that holds `t`.
pub uninterp spec fn pretty_json(t: JsonTree) -> Seq<char>;

/// What the value holds that `serde_json::from_str` reads from `text`, or
/// `None` where it fails.
pub uninterp spec fn parsed_json(text: Seq<char>) -> Option<JsonTree>;

/// Whether `t` holds no float and nests arrays and objects at most `levels`
/// deep.
pub open spec fn plain(t: JsonTree, levels: nat) -> bool
    decreases levels,
{
    match t {
        JsonTree::Null | JsonTree::Bool(_) | JsonTree::Text(_) => true,
        JsonTree::Number(n) => !(n is Float),
        JsonTree::Array(a) => levels > 0 && forall|i: int|
            0 <= i < a.len() ==> plain(#[trigger] a[i], (levels - 1) as nat),
        JsonTree::Object(m) => levels > 0 && forall|k: Seq<char>|
            m.contains_key(k) ==> plain(#[trigger] m[k], (levels - 1) as nat),
    }
}

/// How deep `serde_json` lets a document nest that it reads.
pub const MAX_LEVELS: usize = 127;

/// A document of the given text, ended by a line feed; an empty object stands
/// in where there is no text.
pub open spec fn document(pretty: Option<Seq<char>>) -> Seq<char> {
    match pretty {
        Some(s) => s + "\n"@,
        None => "{}"@ + "\n"@,
    }
}

/// `serde_json::to_string_pretty` on a value succeeds, as only a map with other
/// keys than strings makes it fail, and gives a text that depends on what the
/// value holds: without the feature `preserve_order`, which is not enabled here,
/// an object's members come in the order of their names. With a line feed behind
/// it, `serde_json::from_str` reads the same from the text again where no float
/// occurs and the nesting stays within what it accepts. What the text looks like
/// is not said, nor what is read where a float occurs: floats may come back
/// changed in their last digit.
#[verifier::external_body]
fn to_string_pretty(out: &Value) -> (r: Result<String, serde_json::Error>)
    ensures
        r is Ok,
        r->Ok_0@ == pretty_json(json(*out)),
        plain(json(*out), MAX_LEVELS as nat) ==> parsed_json(document(Some(r->Ok_0@))) == Some(
            json(*out),
        ),
{
    serde_json::to_string_pretty(out)
}

/// `serde_json::from_str` reads a value, or fails, as the text alone decides.
/// Which value that is for a given text is not said.
#[verifier::external_body]
fn from_str(text: &str) -> (r: Result<Value, serde_json::Error>)
    ensures
        match r {
            Ok(v) => parsed_json(text@) == Some(json(v)),
            Err(_) => parsed_json(text@) is None,
        },
{
    serde_json::from_str(text)
}

/// The document of the given text.
pub fn json_document(pretty: Option<String>) -> (r: String)
    ensures
        r@ == document(
            match pretty {
                Some(s) => Some(s@),
                None => None,
            },
        ),
{
    match pretty {
        Some(s) => s.concat("\n"),
        None => String::from_str("{}").concat("\n"),
    }
}

/// Writes `out` to `w` as a pretty-printed JSON document with a line feed at
/// its end. What was written reads back as it was, unless it holds floats or
/// nests deeper than a reader accepts.
pub fn write_report_json(w: &mut String, out: &Value)
    ensures
        final(w)@ == old(w)@ + document(Some(pretty_json(json(*out)))),
        plain(json(*out), MAX_LEVELS as nat) ==> parsed_json(
            document(Some(pretty_json(json(*out)))),
        ) == Some(json(*out)),
{
    let pretty = match to_string_pretty(out) {
        Ok(s) => Some(s),
        Err(_) => None,
    };
    w.append(json_document(pretty).as_str());
}

/// The JSON document of `out`, as it goes to the standard output.
pub fn print_report_json(out: &Value) -> (r: String)
    ensures
        r@ == document(Some(pretty_json(json(*out)))),
        plain(json(*out), MAX_LEVELS as nat) ==> parsed_json(r@) == Some(json(*out)),
{
    let mut text = String::new();
    write_report_json(&mut text, out);
    assert(text@ =~= document(Some(pretty_json(json(*out)))));
    text
}

/// Reads a report back from the text of a JSON document.
pub fn read_report_json(text: &str) -> (r: Option<Value>)
    ensures
        match r {
            Some(v) => parsed_json(text@) == Some(json(v)),
            None => parsed_json(text@) is None,
        },
{
    match from_str(text) {
        Ok(v) => Some(v),
        Err(_) => None,
    }
}

} // verus!
