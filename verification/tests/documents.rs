use boro::document::{json_document, print_report_json, read_report_json, write_report_json};
use boro::json::json_u64;
use serde_json::Value;

fn value(text: &str) -> Value {
    serde_json::from_str(text).expect("valid JSON")
}

#[test]
fn write_report_json_round_trips_top_level_and_finding_keys() {
    let out = value(
        r#"{
            "schema_version": 1,
            "range": "HEAD~1..HEAD",
            "subcommand": "review",
            "model": "test-model",
            "commits": [{
                "sha": "deadbeef",
                "subject": "test commit",
                "patch": "diff --git a/x b/x\n",
                "changed_paths": ["x"],
                "findings": [
                    {
                        "problem": "located issue",
                        "severity": "Medium",
                        "severity_explanation": "why",
                        "location": {"file": "x", "line": 1, "side": "RIGHT"}
                    },
                    {
                        "problem": "unanchored issue",
                        "severity": "Low",
                        "severity_explanation": "why"
                    }
                ]
            }]
        }"#,
    );
    let mut text = String::new();
    write_report_json(&mut text, &out);
    let parsed: Value = serde_json::from_str(&text).expect("valid JSON");
    assert_eq!(parsed["schema_version"], 1);
    assert_eq!(parsed["commits"][0]["sha"], "deadbeef");
    assert_eq!(parsed["commits"][0]["findings"][0]["location"]["file"], "x");
    assert!(parsed["commits"][0]["findings"][1].get("location").is_none());
}

#[test]
fn write_report_json_round_trips_quick_summary_highlights() {
    let out = value(
        r#"{
            "schema_version": 1,
            "range": "HEAD~1..HEAD",
            "commits": [],
            "summary": {
                "text": "Most serious issue: UAF in driver foo.",
                "counts": {"Critical": 1, "High": 0, "Medium": 2, "Low": 0},
                "highlights": [{
                    "finding_ref": "deadbeefdeadbeefdeadbeefdeadbeefdeadbeef:0",
                    "commit": "deadbeefdeadbeefdeadbeefdeadbeefdeadbeef",
                    "severity": "Critical",
                    "title": "UAF in driver foo",
                    "question": "Can this object be released before the callback runs?",
                    "location": {"file": "drivers/foo.c", "line": 42, "side": "RIGHT"}
                }]
            }
        }"#,
    );
    let mut text = String::new();
    write_report_json(&mut text, &out);
    let parsed: Value = serde_json::from_str(&text).expect("valid JSON");
    assert_eq!(parsed["summary"]["counts"]["Critical"], 1);
    assert_eq!(parsed["summary"]["counts"]["Medium"], 2);
    assert_eq!(parsed["schema_version"], 1);
    assert_eq!(
        parsed["summary"]["text"],
        "Most serious issue: UAF in driver foo."
    );
    assert_eq!(parsed["summary"]["highlights"][0]["severity"], "Critical");
    assert_eq!(
        parsed["summary"]["highlights"][0]["location"]["file"],
        "drivers/foo.c"
    );
}

#[test]
fn json_u64_rejects_negative_numbers() {
    assert_eq!(json_u64(&Value::from(u64::MAX)), Some(u64::MAX));
    assert_eq!(json_u64(&Value::from(-1)), None);
    assert_eq!(json_u64(&Value::from(-42)), None);
    assert_eq!(json_u64(&Value::from(0)), Some(0));
    assert_eq!(json_u64(&Value::from(42)), Some(42));
}

#[test]
fn json_u64_rejects_what_is_no_integer() {
    assert_eq!(json_u64(&Value::from(1.0)), None);
    assert_eq!(json_u64(&Value::from("1")), None);
    assert_eq!(json_u64(&Value::Null), None);
    assert_eq!(json_u64(&Value::from(i64::MIN)), None);
    assert_eq!(json_u64(&Value::from(i64::MAX as u64 + 1)), Some(1 << 63));
}

#[test]
fn documents_are_pretty_and_end_with_a_line_feed() {
    let out = value(r#"{"b":[1,-2,"x"],"a":{}}"#);
    let expected = "{\n  \"a\": {},\n  \"b\": [\n    1,\n    -2,\n    \"x\"\n  ]\n}\n";
    assert_eq!(print_report_json(&out), expected);
    let mut text = String::from("before ");
    write_report_json(&mut text, &out);
    assert_eq!(text, format!("before {expected}"));
}

#[test]
fn an_empty_object_stands_in_for_a_missing_text() {
    assert_eq!(json_document(None), "{}\n");
    assert_eq!(json_document(Some("[]".to_string())), "[]\n");
}

#[test]
fn what_was_written_reads_back() {
    let out = value(
        r#"{"s":"\"\\\u0000\u001f 😀","n":[0,18446744073709551615,-9223372036854775808,null,true,false],"o":{"":{}}}"#,
    );
    assert_eq!(read_report_json(&print_report_json(&out)), Some(out));
    assert_eq!(read_report_json("{"), None);
    assert_eq!(read_report_json("{} x"), None);
}

#[test]
fn deep_documents_read_back_up_to_the_limit() {
    let mut v = Value::from(7);
    for _ in 0..127 {
        v = Value::Array(vec![v]);
    }
    assert_eq!(read_report_json(&print_report_json(&v)), Some(v.clone()));
    let deeper = Value::Array(vec![v]);
    assert_eq!(read_report_json(&print_report_json(&deeper)), None);
}
